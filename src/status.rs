use vstd::prelude::*;

verus! {

/// Lifecycle state of a deployment.
#[derive(Clone, Copy, Debug, PartialEq, Eq, Structural)]
pub enum Status {
    Pending,
    Installing,
    Building,
    Running,
    Failed,
    Stopped,
}

impl Status {
    /// The integer under which the status is persisted.
    pub open spec fn spec_code(self) -> i32 {
        match self {
            Status::Pending => 0,
            Status::Installing => 1,
            Status::Building => 2,
            Status::Running => 3,
            Status::Failed => 4,
            Status::Stopped => 5,
        }
    }

    pub fn code(self) -> (r: i32)
        ensures
            r == self.spec_code(),
    {
        match self {
            Status::Pending => 0,
            Status::Installing => 1,
            Status::Building => 2,
            Status::Running => 3,
            Status::Failed => 4,
            Status::Stopped => 5,
        }
    }
}

/// The status persisted under `code`, if any.
pub open spec fn status_of_code(code: i32) -> Option<Status> {
    if code == 0 {
        Some(Status::Pending)
    } else if code == 1 {
        Some(Status::Installing)
    } else if code == 2 {
        Some(Status::Building)
    } else if code == 3 {
        Some(Status::Running)
    } else if code == 4 {
        Some(Status::Failed)
    } else if code == 5 {
        Some(Status::Stopped)
    } else {
        None
    }
}

/// A status that still owns the project: neither failed nor stopped.
pub open spec fn active(s: Status) -> bool {
    s is Pending || s is Installing || s is Building || s is Running
}

/// One row of the transition table: a deployment in status `from` may next be
/// observed in status `to`.
pub open spec fn can_move(from: Status, to: Status) -> bool {
    match from {
        Status::Pending => to is Installing || to is Building || to is Running || to is Failed
            || to is Stopped,
        Status::Installing => to is Building || to is Running || to is Failed || to is Stopped,
        Status::Building => to is Running || to is Failed || to is Stopped,
        Status::Running => to is Running || to is Failed || to is Stopped,
        Status::Failed => false,
        Status::Stopped => false,
    }
}

/// A sequence of observed statuses that starts at `Pending` and follows the
/// transition table at every step.
pub open spec fn is_path(h: Seq<Status>) -> bool {
    &&& h.len() > 0
    &&& h[0] == Status::Pending
    &&& forall|i: int| 0 <= i < h.len() - 1 ==> #[trigger] can_move(h[i], h[i + 1])
}

impl Status {
    pub fn from_code(code: i32) -> (r: Option<Status>)
        ensures
            r == status_of_code(code),
            r matches Some(s) ==> s.spec_code() == code,
    {
        match code {
            0 => Some(Status::Pending),
            1 => Some(Status::Installing),
            2 => Some(Status::Building),
            3 => Some(Status::Running),
            4 => Some(Status::Failed),
            5 => Some(Status::Stopped),
            _ => None,
        }
    }

    pub fn is_active(self) -> (r: bool)
        ensures
            r == active(self),
    {
        match self {
            Status::Pending | Status::Installing | Status::Building | Status::Running => true,
            _ => false,
        }
    }

    pub fn can_move_to(self, to: Status) -> (r: bool)
        ensures
            r == can_move(self, to),
    {
        match self {
            Status::Pending => !matches!(to, Status::Pending),
            Status::Installing => !matches!(to, Status::Pending | Status::Installing),
            Status::Building => matches!(to, Status::Running | Status::Failed | Status::Stopped),
            Status::Running => matches!(to, Status::Running | Status::Failed | Status::Stopped),
            Status::Failed | Status::Stopped => false,
        }
    }
}

/// Every code names at most one status, and every status round-trips through its code.
pub proof fn lemma_code_round_trip(s: Status, code: i32)
    ensures
        status_of_code(s.spec_code()) == Some(s),
        status_of_code(code) == Some(s) <==> s.spec_code() == code,
{
}

/// Position of a status along the pipeline; both end states come last.
pub open spec fn rank(s: Status) -> int {
    match s {
        Status::Pending => 0,
        Status::Installing => 1,
        Status::Building => 2,
        Status::Running => 3,
        Status::Failed => 4,
        Status::Stopped => 4,
    }
}

/// Along a path the stage only moves forward: pending, installing, building,
/// running, then an end state.
pub proof fn lemma_path_stage_grows(h: Seq<Status>, i: int, j: int)
    requires
        is_path(h),
        0 <= i < j < h.len(),
    ensures
        rank(h[i]) <= rank(h[j]),
        !(h[i] is Running) ==> rank(h[i]) < rank(h[j]),
    decreases j - i,
{
    assert(can_move(h[i], h[i + 1]));
    if j > i + 1 {
        lemma_path_stage_grows(h, i + 1, j);
    }
}

} // verus!
