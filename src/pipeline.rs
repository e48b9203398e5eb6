use vstd::prelude::*;

use crate::messages::{
    build_msg, build_text, cloning_msg, cloning_text, deployment_dir, deployment_dir_text, env_created_msg, env_created_text, env_file,
    env_file_text, error_msg, error_text, exit_msg, exit_text, install_msg, install_text,
    missing_run_msg, missing_run_text, output_msg, output_text, pid_file, pid_file_text, pid_marker,
    start_service_msg, start_service_text, terminated_msg, terminated_text,
};
use crate::records::{clone_opt, opt_view, Project};
use crate::status::{can_move, is_path, Status};
use crate::text::{nat_text, trim, trimmed};

verus! {

/// Something the pipeline asks to be written down, in the store or on disk.
#[derive(Debug, PartialEq, Eq)]
pub enum Effect {
    /// Append text to the deployment's log.
    AppendLog(String),
    /// Persist a new status.
    SetStatus(Status),
    /// Record the revision that was checked out.
    SetCommit(String),
    /// Create a directory and its parents.
    CreateDir(String),
    /// Write `content` to the file at `path`.
    WriteFile(String, String),
    /// Remove the file at the path, if it is there.
    RemoveFile(String),
}

pub enum EffectView {
    AppendLog(Seq<char>),
    SetStatus(Status),
    SetCommit(Seq<char>),
    CreateDir(Seq<char>),
    WriteFile(Seq<char>, Seq<char>),
    RemoveFile(Seq<char>),
}

impl View for Effect {
    type V = EffectView;

    open spec fn view(&self) -> EffectView {
        match self {
            Effect::AppendLog(t) => EffectView::AppendLog(t@),
            Effect::SetStatus(s) => EffectView::SetStatus(*s),
            Effect::SetCommit(h) => EffectView::SetCommit(h@),
            Effect::CreateDir(d) => EffectView::CreateDir(d@),
            Effect::WriteFile(p, c) => EffectView::WriteFile(p@, c@),
            Effect::RemoveFile(p) => EffectView::RemoveFile(p@),
        }
    }
}

/// The outside work the pipeline waits on next; its outcome comes back as an `Event`.
#[derive(Debug, PartialEq, Eq)]
pub enum Work {
    /// `git clone <repo> <dir>`; answered by `Event::Cloned`.
    Clone { repo: String, dir: String },
    /// `git rev-parse HEAD` in `dir`; answered by `Event::Revision`.
    RevParse { dir: String },
    /// Run `cmd` through the shell in `dir` to completion; answered by `Event::Ran`.
    Shell { cmd: String, dir: String },
    /// Start `cmd` through the shell in `dir` as a new process group, with its
    /// output captured; answered by `Event::Spawned`.
    Spawn { cmd: String, dir: String },
    /// Wait for the run process: a line of output or its exit.
    Watch,
    /// Nothing more to do: the pipeline ended, with the error text on failure.
    Finish(Result<(), String>),
}

pub enum WorkView {
    Clone { repo: Seq<char>, dir: Seq<char> },
    RevParse { dir: Seq<char> },
    Shell { cmd: Seq<char>, dir: Seq<char> },
    Spawn { cmd: Seq<char>, dir: Seq<char> },
    Watch,
    Finish(Result<(), Seq<char>>),
}

impl View for Work {
    type V = WorkView;

    open spec fn view(&self) -> WorkView {
        match self {
            Work::Clone { repo, dir } => WorkView::Clone { repo: repo@, dir: dir@ },
            Work::RevParse { dir } => WorkView::RevParse { dir: dir@ },
            Work::Shell { cmd, dir } => WorkView::Shell { cmd: cmd@, dir: dir@ },
            Work::Spawn { cmd, dir } => WorkView::Spawn { cmd: cmd@, dir: dir@ },
            Work::Watch => WorkView::Watch,
            Work::Finish(Ok(())) => WorkView::Finish(Ok(())),
            Work::Finish(Err(e)) => WorkView::Finish(Err(e@)),
        }
    }
}

/// What happened outside, handed back to the pipeline.
#[derive(Debug, PartialEq, Eq)]
pub enum Event {
    /// Begin the pipeline.
    Begin,
    /// The clone ended.
    Cloned { success: bool, stdout: String, stderr: String },
    /// What `git rev-parse HEAD` printed.
    Revision { stdout: String },
    /// An install or build command ended.
    Ran { success: bool, stdout: String, stderr: String },
    /// The run process started, with its process id where the system gave one.
    Spawned { pid: Option<u32> },
    /// A line that the run process wrote to standard output.
    Stdout(String),
    /// A line that the run process wrote to standard error.
    Stderr(String),
    /// The run process ended: its exit status as text, or the error met while waiting.
    Exited(Result<String, String>),
}

pub enum EventView {
    Begin,
    Cloned { success: bool, stdout: Seq<char>, stderr: Seq<char> },
    Revision { stdout: Seq<char> },
    Ran { success: bool, stdout: Seq<char>, stderr: Seq<char> },
    Spawned { pid: Option<u32> },
    Stdout(Seq<char>),
    Stderr(Seq<char>),
    Exited(Result<Seq<char>, Seq<char>>),
}

impl View for Event {
    type V = EventView;

    open spec fn view(&self) -> EventView {
        match self {
            Event::Begin => EventView::Begin,
            Event::Cloned { success, stdout, stderr } => EventView::Cloned {
                success: *success,
                stdout: stdout@,
                stderr: stderr@,
            },
            Event::Revision { stdout } => EventView::Revision { stdout: stdout@ },
            Event::Ran { success, stdout, stderr } => EventView::Ran {
                success: *success,
                stdout: stdout@,
                stderr: stderr@,
            },
            Event::Spawned { pid } => EventView::Spawned { pid: *pid },
            Event::Stdout(l) => EventView::Stdout(l@),
            Event::Stderr(l) => EventView::Stderr(l@),
            Event::Exited(Ok(s)) => EventView::Exited(Ok(s@)),
            Event::Exited(Err(e)) => EventView::Exited(Err(e@)),
        }
    }
}

/// Where the pipeline stands: the outside work it waits on.
#[derive(Clone, Copy, Debug, PartialEq, Eq, Structural)]
pub enum Phase {
    Ready,
    Cloning,
    Revision,
    Installing,
    Building,
    Spawning,
    Watching,
    Done,
}

/// Effects to carry out in order, then the work to wait on.
pub struct Plan {
    pub effects: Vec<Effect>,
    pub next: Work,
}

pub struct PlanView {
    pub effects: Seq<EffectView>,
    pub next: WorkView,
}

impl View for Plan {
    type V = PlanView;

    open spec fn view(&self) -> PlanView {
        PlanView { effects: self.effects@.map_values(|e: Effect| e@), next: self.next@ }
    }
}

/// The pipeline of one deployment: clone, environment file, install, build,
/// then the run process until it exits.
pub struct Pipeline {
    deployment_id: i64,
    dir: String,
    git_repo: String,
    install_cmd: Option<String>,
    build_cmd: Option<String>,
    run_cmd: Option<String>,
    env: Option<String>,
    phase: Phase,
    status: Status,
    /// Every status this pipeline has set, starting with `Pending`.
    history: Ghost<Seq<Status>>,
    /// All the text this pipeline has appended to the log.
    log: Ghost<Seq<char>>,
}

pub struct PipelineView {
    pub deployment_id: i64,
    pub dir: Seq<char>,
    pub repo: Seq<char>,
    pub install: Option<Seq<char>>,
    pub build: Option<Seq<char>>,
    pub run: Option<Seq<char>>,
    pub env: Option<Seq<char>>,
    pub phase: Phase,
    pub status: Status,
    pub history: Seq<Status>,
    pub log: Seq<char>,
}

impl View for Pipeline {
    type V = PipelineView;

    closed spec fn view(&self) -> PipelineView {
        PipelineView {
            deployment_id: self.deployment_id,
            dir: self.dir@,
            repo: self.git_repo@,
            install: opt_view(self.install_cmd),
            build: opt_view(self.build_cmd),
            run: opt_view(self.run_cmd),
            env: opt_view(self.env),
            phase: self.phase,
            status: self.status,
            history: self.history@,
            log: self.log@,
        }
    }
}

/// The statuses that `effs` set, in order.
pub open spec fn statuses(effs: Seq<EffectView>) -> Seq<Status>
    decreases effs.len(),
{
    if effs.len() == 0 {
        Seq::empty()
    } else {
        let rest = statuses(effs.drop_last());
        match effs.last() {
            EffectView::SetStatus(s) => rest.push(s),
            _ => rest,
        }
    }
}

/// The text that `effs` append to the log, in order.
pub open spec fn appended(effs: Seq<EffectView>) -> Seq<char>
    decreases effs.len(),
{
    if effs.len() == 0 {
        Seq::empty()
    } else {
        let rest = appended(effs.drop_last());
        match effs.last() {
            EffectView::AppendLog(t) => rest + t,
            _ => rest,
        }
    }
}

/// The effects of a step, the phase it leads to and the status it leaves.
pub struct Advance {
    pub effects: Seq<EffectView>,
    pub next: WorkView,
    pub phase: Phase,
    pub status: Status,
}

/// The work a pipeline in state `m` waits on; one not yet begun, or ended,
/// waits on nothing.
pub open spec fn awaiting(m: PipelineView) -> WorkView {
    match m.phase {
        Phase::Ready => WorkView::Finish(Ok(())),
        Phase::Cloning => WorkView::Clone { repo: m.repo, dir: m.dir },
        Phase::Revision => WorkView::RevParse { dir: m.dir },
        Phase::Installing => WorkView::Shell { cmd: m.install->0, dir: m.dir },
        Phase::Building => WorkView::Shell { cmd: m.build->0, dir: m.dir },
        Phase::Spawning => WorkView::Spawn { cmd: m.run->0, dir: m.dir },
        Phase::Watching => WorkView::Watch,
        Phase::Done => WorkView::Finish(Ok(())),
    }
}

/// A failed step: the output it printed, the status `Failed`, and its error text.
pub open spec fn fail_step(stdout: Seq<char>, stderr: Seq<char>) -> Advance {
    Advance {
        effects: seq![
            EffectView::AppendLog(stdout),
            EffectView::SetStatus(Status::Failed),
            EffectView::AppendLog(error_text(stderr)),
        ],
        next: WorkView::Finish(Err(stderr)),
        phase: Phase::Done,
        status: Status::Failed,
    }
}

/// Entering the run stage: `Running`, then the run command, which is required.
pub open spec fn enter_run(m: PipelineView) -> Advance {
    match m.run {
        Some(cmd) => Advance {
            effects: seq![
                EffectView::SetStatus(Status::Running),
                EffectView::AppendLog(start_service_text(cmd)),
            ],
            next: WorkView::Spawn { cmd, dir: m.dir },
            phase: Phase::Spawning,
            status: Status::Running,
        },
        None => Advance {
            effects: seq![
                EffectView::SetStatus(Status::Running),
                EffectView::SetStatus(Status::Failed),
                EffectView::AppendLog(error_text(missing_run_text())),
            ],
            next: WorkView::Finish(Err(missing_run_text())),
            phase: Phase::Done,
            status: Status::Failed,
        },
    }
}

/// Entering the build stage, or falling through to the run stage without a build command.
pub open spec fn enter_build(m: PipelineView) -> Advance {
    match m.build {
        Some(cmd) => Advance {
            effects: seq![
                EffectView::SetStatus(Status::Building),
                EffectView::AppendLog(build_text(cmd)),
            ],
            next: WorkView::Shell { cmd, dir: m.dir },
            phase: Phase::Building,
            status: Status::Building,
        },
        None => enter_run(m),
    }
}

/// Entering the install stage, or falling through without an install command.
pub open spec fn enter_install(m: PipelineView) -> Advance {
    match m.install {
        Some(cmd) => Advance {
            effects: seq![
                EffectView::SetStatus(Status::Installing),
                EffectView::AppendLog(install_text(cmd)),
            ],
            next: WorkView::Shell { cmd, dir: m.dir },
            phase: Phase::Installing,
            status: Status::Installing,
        },
        None => enter_build(m),
    }
}

/// After the checkout: record the revision, write the environment file, go on.
pub open spec fn after_revision(m: PipelineView, stdout: Seq<char>) -> Advance {
    let head = seq![EffectView::SetCommit(trimmed(stdout))];
    let env = match m.env {
        Some(text) => seq![
            EffectView::WriteFile(env_file_text(m.dir), text),
            EffectView::AppendLog(env_created_text()),
        ],
        None => Seq::empty(),
    };
    let rest = enter_install(m);
    Advance { effects: head + env + rest.effects, ..rest }
}

/// What a pipeline in state `m` does on event `e`. An event that does not
/// answer the awaited work changes nothing.
pub open spec fn react(m: PipelineView, e: EventView) -> Option<Advance> {
    match (m.phase, e) {
        (Phase::Ready, EventView::Begin) => Some(
            Advance {
                effects: seq![
                    EffectView::AppendLog(cloning_text(m.repo, m.dir)),
                    EffectView::CreateDir(m.dir),
                ],
                next: WorkView::Clone { repo: m.repo, dir: m.dir },
                phase: Phase::Cloning,
                status: m.status,
            },
        ),
        (Phase::Cloning, EventView::Cloned { success, stdout, stderr }) => Some(
            if success {
                Advance {
                    effects: seq![EffectView::AppendLog(stdout)],
                    next: WorkView::RevParse { dir: m.dir },
                    phase: Phase::Revision,
                    status: m.status,
                }
            } else {
                fail_step(stdout, stderr)
            },
        ),
        (Phase::Revision, EventView::Revision { stdout }) => Some(after_revision(m, stdout)),
        (Phase::Installing, EventView::Ran { success, stdout, stderr }) => Some(
            if success {
                let rest = enter_build(m);
                Advance { effects: seq![EffectView::AppendLog(stdout)] + rest.effects, ..rest }
            } else {
                fail_step(stdout, stderr)
            },
        ),
        (Phase::Building, EventView::Ran { success, stdout, stderr }) => Some(
            if success {
                let rest = enter_run(m);
                Advance { effects: seq![EffectView::AppendLog(stdout)] + rest.effects, ..rest }
            } else {
                fail_step(stdout, stderr)
            },
        ),
        (Phase::Spawning, EventView::Spawned { pid }) => Some(
            Advance {
                effects: match pid {
                    Some(p) => seq![
                        EffectView::WriteFile(pid_file_text(m.dir), nat_text(p as nat)),
                    ],
                    None => Seq::empty(),
                },
                next: WorkView::Watch,
                phase: Phase::Watching,
                status: m.status,
            },
        ),
        (Phase::Watching, EventView::Stdout(line)) => Some(
            Advance {
                effects: seq![EffectView::AppendLog(output_text(line))],
                next: WorkView::Watch,
                phase: Phase::Watching,
                status: m.status,
            },
        ),
        (Phase::Watching, EventView::Stderr(line)) => Some(
            Advance {
                effects: seq![EffectView::AppendLog(error_text(line))],
                next: WorkView::Watch,
                phase: Phase::Watching,
                status: m.status,
            },
        ),
        (Phase::Watching, EventView::Exited(outcome)) => Some(
            Advance {
                effects: seq![
                    EffectView::RemoveFile(pid_file_text(m.dir)),
                    EffectView::SetStatus(Status::Stopped),
                    EffectView::AppendLog(terminated_text(exit_text(outcome))),
                ],
                next: WorkView::Finish(Ok(())),
                phase: Phase::Done,
                status: Status::Stopped,
            },
        ),
        _ => None,
    }
}

/// The state after an advance: new phase and status, history and log extended
/// by exactly what its effects set and append.
pub open spec fn apply(m: PipelineView, a: Advance) -> PipelineView {
    PipelineView {
        phase: a.phase,
        status: a.status,
        history: m.history + statuses(a.effects),
        log: m.log + appended(a.effects),
        ..m
    }
}

/// The state and plan that follow event `e` in state `m`.
pub open spec fn step(m: PipelineView, e: EventView) -> (PipelineView, PlanView) {
    match react(m, e) {
        Some(a) => (apply(m, a), PlanView { effects: a.effects, next: a.next }),
        None => (m, PlanView { effects: Seq::empty(), next: awaiting(m) }),
    }
}

/// A pipeline state that can be reached from a fresh pipeline.
pub open spec fn well_formed(m: PipelineView) -> bool {
    &&& is_path(m.history)
    &&& m.history.last() == m.status
    &&& match m.phase {
        Phase::Ready | Phase::Cloning | Phase::Revision => m.status == Status::Pending,
        Phase::Installing => m.status == Status::Installing && m.install is Some,
        Phase::Building => m.status == Status::Building && m.build is Some,
        Phase::Spawning | Phase::Watching => m.status == Status::Running && m.run is Some,
        Phase::Done => m.status == Status::Failed || m.status == Status::Stopped,
    }
    &&& stages_in_order(m)
}

/// Building is entered only after the install command, if any, has run, and
/// running only after both the install and the build command, if any.
pub open spec fn stages_in_order(m: PipelineView) -> bool {
    &&& m.install is Some && (m.history.contains(Status::Building) || m.history.contains(
        Status::Running,
    )) ==> m.history.contains(Status::Installing)
    &&& m.build is Some && m.history.contains(Status::Running) ==> m.history.contains(
        Status::Building,
    )
}

proof fn lemma_effects_concat(a: Seq<EffectView>, b: Seq<EffectView>)
    ensures
        statuses(a + b) == statuses(a) + statuses(b),
        appended(a + b) == appended(a) + appended(b),
    decreases b.len(),
{
    if b.len() == 0 {
        assert(a + b =~= a);
        assert(statuses(a) + statuses(b) =~= statuses(a));
        assert(appended(a) + appended(b) =~= appended(a));
    } else {
        lemma_effects_concat(a, b.drop_last());
        assert((a + b).drop_last() =~= a + b.drop_last());
        assert((a + b).last() == b.last());
        match b.last() {
            EffectView::SetStatus(t) => {
                assert(statuses(a) + statuses(b.drop_last()).push(t) =~= (statuses(a) + statuses(
                    b.drop_last(),
                )).push(t));
            },
            EffectView::AppendLog(t) => {
                assert(appended(a) + (appended(b.drop_last()) + t) =~= (appended(a) + appended(
                    b.drop_last(),
                )) + t);
            },
            _ => {},
        }
    }
}

/// The statuses set by a single effect.
pub open spec fn status_of(x: EffectView) -> Seq<Status> {
    match x {
        EffectView::SetStatus(t) => seq![t],
        _ => Seq::empty(),
    }
}

/// The text appended by a single effect.
pub open spec fn text_of(x: EffectView) -> Seq<char> {
    match x {
        EffectView::AppendLog(t) => t,
        _ => Seq::empty(),
    }
}

proof fn lemma_effects_one(x: EffectView)
    ensures
        statuses(seq![x]) == status_of(x),
        appended(seq![x]) == text_of(x),
{
    let s = seq![x];
    assert(s.drop_last() =~= Seq::<EffectView>::empty());
    assert(s.last() == x);
    assert(statuses(Seq::<EffectView>::empty()) == Seq::<Status>::empty());
    assert(appended(Seq::<EffectView>::empty()) == Seq::<char>::empty());
    match x {
        EffectView::SetStatus(t) => {
            assert(Seq::<Status>::empty().push(t) =~= seq![t]);
        },
        EffectView::AppendLog(t) => {
            assert(Seq::<char>::empty() + t =~= t);
        },
        _ => {},
    }
}

proof fn lemma_effects_two(x: EffectView, y: EffectView)
    ensures
        statuses(seq![x, y]) == status_of(x) + status_of(y),
        appended(seq![x, y]) == text_of(x) + text_of(y),
{
    lemma_effects_one(x);
    lemma_effects_one(y);
    lemma_effects_concat(seq![x], seq![y]);
    assert(seq![x] + seq![y] =~= seq![x, y]);
}

proof fn lemma_effects_three(x: EffectView, y: EffectView, z: EffectView)
    ensures
        statuses(seq![x, y, z]) == status_of(x) + status_of(y) + status_of(z),
        appended(seq![x, y, z]) == text_of(x) + text_of(y) + text_of(z),
{
    lemma_effects_two(x, y);
    lemma_effects_one(z);
    lemma_effects_concat(seq![x, y], seq![z]);
    assert(seq![x, y] + seq![z] =~= seq![x, y, z]);
}

proof fn lemma_path_extend(h: Seq<Status>, t: Seq<Status>)
    requires
        is_path(h),
        t.len() > 0,
        can_move(h.last(), t[0]),
        forall|i: int| 0 <= i < t.len() - 1 ==> #[trigger] can_move(t[i], t[i + 1]),
    ensures
        is_path(h + t),
        (h + t).last() == t.last(),
{
    let g = h + t;
    assert forall|i: int| 0 <= i < g.len() - 1 implies #[trigger] can_move(g[i], g[i + 1]) by {
        if i < h.len() - 1 {
            assert(can_move(h[i], h[i + 1]));
        } else if i == h.len() - 1 {
        } else {
            assert(can_move(t[i - h.len()], t[i - h.len() + 1]));
        }
    }
}

proof fn lemma_contains_extend(h: Seq<Status>, t: Seq<Status>, x: Status)
    ensures
        (h + t).contains(x) <==> h.contains(x) || t.contains(x),
{
    let g = h + t;
    if h.contains(x) {
        let i = choose|i: int| 0 <= i < h.len() && h[i] == x;
        assert(g[i] == x);
    }
    if t.contains(x) {
        let i = choose|i: int| 0 <= i < t.len() && t[i] == x;
        assert(g[h.len() + i] == x);
    }
    if g.contains(x) {
        let i = choose|i: int| 0 <= i < g.len() && g[i] == x;
        if i < h.len() {
            assert(h[i] == x);
        } else {
            assert(t[i - h.len()] == x);
        }
    }
}

/// What entering the run stage sets and appends.
proof fn lemma_enter_run(m: PipelineView)
    ensures
        m.run is Some ==> statuses(enter_run(m).effects) == seq![Status::Running],
        m.run is None ==> statuses(enter_run(m).effects) == seq![Status::Running, Status::Failed],
{
    let a = enter_run(m);
    match m.run {
        Some(cmd) => {
            lemma_effects_two(a.effects[0], a.effects[1]);
            assert(a.effects =~= seq![a.effects[0], a.effects[1]]);
            assert(seq![Status::Running] + Seq::<Status>::empty() =~= seq![Status::Running]);
        },
        None => {
            lemma_effects_three(a.effects[0], a.effects[1], a.effects[2]);
            assert(a.effects =~= seq![a.effects[0], a.effects[1], a.effects[2]]);
            assert(seq![Status::Running] + seq![Status::Failed] + Seq::<Status>::empty() =~= seq![
                Status::Running,
                Status::Failed,
            ]);
        },
    }
}

proof fn lemma_enter_two(x: Status, text: Seq<char>)
    ensures
        statuses(seq![EffectView::SetStatus(x), EffectView::AppendLog(text)]) == seq![x],
{
    lemma_effects_two(EffectView::SetStatus(x), EffectView::AppendLog(text));
    assert(seq![x] + Seq::<Status>::empty() =~= seq![x]);
}

/// The statuses set on the way into the install, build or run stage, whichever
/// comes first.
proof fn lemma_enter_install(m: PipelineView)
    ensures
        m.install is Some ==> statuses(enter_install(m).effects) == seq![Status::Installing],
        m.install is None && m.build is Some ==> statuses(enter_install(m).effects) == seq![
            Status::Building,
        ],
        m.install is None && m.build is None ==> statuses(enter_install(m).effects) == statuses(
            enter_run(m).effects,
        ),
        m.build is Some ==> statuses(enter_build(m).effects) == seq![Status::Building],
        m.build is None ==> enter_build(m) == enter_run(m),
{
    if let Some(c) = m.install {
        lemma_enter_two(Status::Installing, install_text(c));
    }
    if let Some(c) = m.build {
        lemma_enter_two(Status::Building, build_text(c));
    }
}

proof fn lemma_fail_step(stdout: Seq<char>, stderr: Seq<char>)
    ensures
        statuses(fail_step(stdout, stderr).effects) == seq![Status::Failed],
{
    let a = fail_step(stdout, stderr);
    lemma_effects_three(a.effects[0], a.effects[1], a.effects[2]);
    assert(a.effects =~= seq![a.effects[0], a.effects[1], a.effects[2]]);
    assert(Seq::<Status>::empty() + seq![Status::Failed] + Seq::<Status>::empty() =~= seq![
        Status::Failed,
    ]);
}

proof fn lemma_no_status(a: Seq<EffectView>)
    requires
        forall|i: int| 0 <= i < a.len() ==> !(#[trigger] a[i] is SetStatus),
    ensures
        statuses(a) == Seq::<Status>::empty(),
    decreases a.len(),
{
    if a.len() > 0 {
        lemma_no_status(a.drop_last());
    }
}

/// The statuses that event `e` makes a pipeline in state `m` set.
proof fn lemma_react_statuses(m: PipelineView, e: EventView)
    requires
        react(m, e) is Some,
    ensures
        ({
            let t = statuses(react(m, e)->0.effects);
            match (m.phase, e) {
                (Phase::Cloning, EventView::Cloned { success, .. }) => if success {
                    t.len() == 0
                } else {
                    t == seq![Status::Failed]
                },
                (Phase::Revision, _) => t == statuses(enter_install(m).effects),
                (Phase::Installing, EventView::Ran { success, .. }) => if success {
                    t == statuses(enter_build(m).effects)
                } else {
                    t == seq![Status::Failed]
                },
                (Phase::Building, EventView::Ran { success, .. }) => if success {
                    t == statuses(enter_run(m).effects)
                } else {
                    t == seq![Status::Failed]
                },
                (Phase::Watching, EventView::Exited(_)) => t == seq![Status::Stopped],
                _ => t.len() == 0,
            }
        }),
{
    let a = react(m, e)->0;
    match (m.phase, e) {
        (Phase::Ready, _) => {
            lemma_effects_two(a.effects[0], a.effects[1]);
            assert(a.effects =~= seq![a.effects[0], a.effects[1]]);
        },
        (Phase::Cloning, EventView::Cloned { success, stdout, stderr }) => {
            if success {
                lemma_effects_one(a.effects[0]);
                assert(a.effects =~= seq![a.effects[0]]);
            } else {
                lemma_fail_step(stdout, stderr);
            }
        },
        (Phase::Revision, EventView::Revision { stdout }) => {
            let rest = enter_install(m);
            let head = seq![EffectView::SetCommit(trimmed(stdout))];
            let env = a.effects.subrange(1, a.effects.len() - rest.effects.len());
            assert(a.effects =~= head + env + rest.effects);
            lemma_no_status(head + env);
            lemma_effects_concat(head + env, rest.effects);
            assert(Seq::<Status>::empty() + statuses(rest.effects) =~= statuses(rest.effects));
        },
        (Phase::Installing, EventView::Ran { success, stdout, stderr }) | (
            Phase::Building,
            EventView::Ran { success, stdout, stderr },
        ) => {
            if success {
                let rest = if m.phase == Phase::Installing {
                    enter_build(m)
                } else {
                    enter_run(m)
                };
                lemma_effects_one(EffectView::AppendLog(stdout));
                lemma_effects_concat(seq![EffectView::AppendLog(stdout)], rest.effects);
                assert(Seq::<Status>::empty() + statuses(rest.effects) =~= statuses(
                    rest.effects,
                ));
            } else {
                lemma_fail_step(stdout, stderr);
            }
        },
        (Phase::Spawning, _) => {
            lemma_no_status(a.effects);
        },
        (Phase::Watching, EventView::Exited(_)) => {
            lemma_effects_three(a.effects[0], a.effects[1], a.effects[2]);
            assert(a.effects =~= seq![a.effects[0], a.effects[1], a.effects[2]]);
            assert(Seq::<Status>::empty() + seq![Status::Stopped] + Seq::<Status>::empty()
                =~= seq![Status::Stopped]);
        },
        (Phase::Watching, _) => {
            lemma_effects_one(a.effects[0]);
            assert(a.effects =~= seq![a.effects[0]]);
        },
        _ => {},
    }
}

/// Whatever happens, a pipeline stays well formed: the statuses it sets extend
/// a path through the transition table, installing and building are passed
/// before running whenever their commands exist, and the history and the log
/// grow by exactly what the step's effects set and append.
pub proof fn lemma_step_well_formed(m: PipelineView, e: EventView)
    requires
        well_formed(m),
    ensures
        well_formed(step(m, e).0),
        step(m, e).0.history == m.history + statuses(step(m, e).1.effects),
        step(m, e).0.log == m.log + appended(step(m, e).1.effects),
{
    let h = m.history;
    assert(h[h.len() - 1] == h.last());
    assert(h.contains(h.last()));
    match react(m, e) {
        None => {
            lemma_no_status(Seq::<EffectView>::empty());
            assert(h + Seq::<Status>::empty() =~= h);
            assert(m.log + appended(Seq::<EffectView>::empty()) =~= m.log);
        },
        Some(a) => {
            lemma_react_statuses(m, e);
            lemma_enter_install(m);
            lemma_enter_run(m);
            let t = statuses(a.effects);
            if t.len() > 0 {
                lemma_path_extend(h, t);
            } else {
                assert(h + t =~= h);
            }
            lemma_contains_extend(h, t, Status::Installing);
            lemma_contains_extend(h, t, Status::Building);
            lemma_contains_extend(h, t, Status::Running);
        },
    }
}

/// A fresh pipeline for deployment `id` of `p`, in directory `projects/<name>/<id>`.
pub open spec fn fresh(p: Project, id: i64) -> PipelineView {
    PipelineView {
        deployment_id: id,
        dir: deployment_dir_text(p.name@, id as int),
        repo: p.git_repo@,
        install: opt_view(p.install_cmd),
        build: opt_view(p.build_cmd),
        run: opt_view(p.run_cmd),
        env: opt_view(p.env),
        phase: Phase::Ready,
        status: Status::Pending,
        history: seq![Status::Pending],
        log: Seq::empty(),
    }
}

/// The effects and next work of one step, before they are handed out.
struct Move {
    effects: Vec<Effect>,
    next: Work,
    phase: Phase,
    status: Status,
}

spec fn effects_view(v: Vec<Effect>) -> Seq<EffectView> {
    v@.map_values(|e: Effect| e@)
}

spec fn realizes(mv: Move, a: Advance) -> bool {
    &&& effects_view(mv.effects) == a.effects
    &&& mv.next@ == a.next
    &&& mv.phase == a.phase
    &&& mv.status == a.status
}

fn one(e: Effect) -> (r: Vec<Effect>)
    ensures
        effects_view(r) == seq![e@],
{
    let mut v: Vec<Effect> = Vec::new();
    v.push(e);
    assert(effects_view(v) =~= seq![e@]);
    v
}

fn two(e: Effect, f: Effect) -> (r: Vec<Effect>)
    ensures
        effects_view(r) == seq![e@, f@],
{
    let mut v: Vec<Effect> = Vec::new();
    v.push(e);
    v.push(f);
    assert(effects_view(v) =~= seq![e@, f@]);
    v
}

fn three(e: Effect, f: Effect, g: Effect) -> (r: Vec<Effect>)
    ensures
        effects_view(r) == seq![e@, f@, g@],
{
    let mut v: Vec<Effect> = Vec::new();
    v.push(e);
    v.push(f);
    v.push(g);
    assert(effects_view(v) =~= seq![e@, f@, g@]);
    v
}

/// `a` followed by `b`.
fn chain(a: Vec<Effect>, b: Vec<Effect>) -> (r: Vec<Effect>)
    ensures
        effects_view(r) == effects_view(a) + effects_view(b),
{
    let mut r = a;
    let mut b = b;
    let ghost b0 = b;
    r.append(&mut b);
    assert(effects_view(r) =~= effects_view(a) + effects_view(b0));
    r
}

/// The log only grows: whatever a step does, the text appended before it is
/// kept as it was, at the start of the log.
pub proof fn lemma_log_only_grows(m: PipelineView, e: EventView)
    requires
        well_formed(m),
    ensures
        m.log.len() <= step(m, e).0.log.len(),
        step(m, e).0.log.subrange(0, m.log.len() as int) == m.log,
{
    lemma_step_well_formed(m, e);
    let l = step(m, e).0.log;
    assert(l.subrange(0, m.log.len() as int) =~= m.log);
}

/// Once ended, a pipeline stays put: no event sets a status, appends to the
/// log, or asks for any command to run.
pub proof fn lemma_done_is_final(m: PipelineView, e: EventView)
    requires
        m.phase == Phase::Done,
    ensures
        step(m, e).0 == m,
        step(m, e).1.effects.len() == 0,
        step(m, e).1.next == WorkView::Finish(Ok(())),
{
}

/// A failing install or build step ends the pipeline: the status becomes
/// `Failed`, the command's standard error is appended to the log, and nothing
/// is run after it.
pub proof fn lemma_failed_step_ends(m: PipelineView, stdout: Seq<char>, stderr: Seq<char>)
    requires
        well_formed(m),
        m.phase == Phase::Installing || m.phase == Phase::Building,
    ensures
        ({
            let (m2, plan) = step(m, EventView::Ran { success: false, stdout, stderr });
            &&& m2.status == Status::Failed
            &&& m2.phase == Phase::Done
            &&& plan.next == WorkView::Finish(Err(stderr))
            &&& plan.effects.contains(EffectView::AppendLog(error_text(stderr)))
            &&& m2.log == m.log + stdout + error_text(stderr)
        }),
{
    let a = fail_step(stdout, stderr);
    lemma_effects_three(a.effects[0], a.effects[1], a.effects[2]);
    assert(a.effects =~= seq![a.effects[0], a.effects[1], a.effects[2]]);
    assert(a.effects[2] == EffectView::AppendLog(error_text(stderr)));
    assert(stdout + Seq::<char>::empty() + error_text(stderr) =~= stdout + error_text(stderr));
    assert(m.log + (stdout + error_text(stderr)) =~= m.log + stdout + error_text(stderr));
}

/// A running process that prints a line and exits leaves the deployment
/// `Stopped`, with that line and then the termination message at the end of
/// the log, and its pid marker removed.
pub proof fn lemma_line_then_exit(
    m: PipelineView,
    line: Seq<char>,
    outcome: Result<Seq<char>, Seq<char>>,
)
    requires
        well_formed(m),
        m.phase == Phase::Watching,
    ensures
        ({
            let (m1, p1) = step(m, EventView::Stdout(line));
            let (m2, p2) = step(m1, EventView::Exited(outcome));
            &&& m2.status == Status::Stopped
            &&& m2.phase == Phase::Done
            &&& m2.log == m.log + output_text(line) + terminated_text(exit_text(outcome))
            &&& p2.effects.contains(EffectView::RemoveFile(pid_file_text(m.dir)))
            &&& p2.next == WorkView::Finish(Ok(()))
        }),
{
    let (m1, p1) = step(m, EventView::Stdout(line));
    lemma_effects_one(p1.effects[0]);
    assert(p1.effects =~= seq![p1.effects[0]]);
    let (m2, p2) = step(m1, EventView::Exited(outcome));
    lemma_effects_three(p2.effects[0], p2.effects[1], p2.effects[2]);
    assert(p2.effects =~= seq![p2.effects[0], p2.effects[1], p2.effects[2]]);
    assert(p2.effects[0] == EffectView::RemoveFile(pid_file_text(m.dir)));
    let t = terminated_text(exit_text(outcome));
    assert(Seq::<char>::empty() + Seq::<char>::empty() + t =~= t);
}

impl Pipeline {
    /// The pipeline is in a reachable state.
    pub open spec fn inv(&self) -> bool {
        well_formed(self@)
    }

    /// The pipeline of deployment `deployment_id` of `project`, not yet begun.
    pub fn new(project: &Project, deployment_id: i64) -> (r: Pipeline)
        ensures
            r@ == fresh(*project, deployment_id),
            r.inv(),
    {
        let ghost start = seq![Status::Pending];
        let r = Pipeline {
            deployment_id,
            dir: deployment_dir(project.name.as_str(), deployment_id),
            git_repo: project.git_repo.clone(),
            install_cmd: clone_opt(&project.install_cmd),
            build_cmd: clone_opt(&project.build_cmd),
            run_cmd: clone_opt(&project.run_cmd),
            env: clone_opt(&project.env),
            phase: Phase::Ready,
            status: Status::Pending,
            history: Ghost(start),
            log: Ghost(Seq::empty()),
        };
        assert(is_path(r.history@));
        r
    }

    pub fn deployment_id(&self) -> (r: i64)
        ensures
            r == self@.deployment_id,
    {
        self.deployment_id
    }

    /// The deployment's working directory.
    pub fn dir(&self) -> (r: &str)
        ensures
            r@ == self@.dir,
    {
        self.dir.as_str()
    }

    pub fn phase(&self) -> (r: Phase)
        ensures
            r == self@.phase,
    {
        self.phase
    }

    /// The status this pipeline last set.
    pub fn status(&self) -> (r: Status)
        ensures
            r == self@.status,
    {
        self.status
    }

    /// The work this pipeline waits on.
    pub fn awaiting(&self) -> (r: Work)
        requires
            self.inv(),
        ensures
            r@ == awaiting(self@),
    {
        let dir = self.dir.clone();
        match self.phase {
            Phase::Cloning => Work::Clone { repo: self.git_repo.clone(), dir },
            Phase::Revision => Work::RevParse { dir },
            Phase::Installing => match &self.install_cmd {
                Some(cmd) => Work::Shell { cmd: cmd.clone(), dir },
                None => Work::Watch,
            },
            Phase::Building => match &self.build_cmd {
                Some(cmd) => Work::Shell { cmd: cmd.clone(), dir },
                None => Work::Watch,
            },
            Phase::Spawning => match &self.run_cmd {
                Some(cmd) => Work::Spawn { cmd: cmd.clone(), dir },
                None => Work::Watch,
            },
            Phase::Watching => Work::Watch,
            Phase::Ready | Phase::Done => Work::Finish(Ok(())),
        }
    }

    fn fail_move(stdout: String, stderr: String) -> (r: Move)
        ensures
            realizes(r, fail_step(stdout@, stderr@)),
    {
        let msg = error_msg(stderr.as_str());
        Move {
            effects: three(
                Effect::AppendLog(stdout),
                Effect::SetStatus(Status::Failed),
                Effect::AppendLog(msg),
            ),
            next: Work::Finish(Err(stderr)),
            phase: Phase::Done,
            status: Status::Failed,
        }
    }

    fn run_move(&self) -> (r: Move)
        ensures
            realizes(r, enter_run(self@)),
    {
        match &self.run_cmd {
            Some(cmd) => Move {
                effects: two(
                    Effect::SetStatus(Status::Running),
                    Effect::AppendLog(start_service_msg(cmd.as_str())),
                ),
                next: Work::Spawn { cmd: cmd.clone(), dir: self.dir.clone() },
                phase: Phase::Spawning,
                status: Status::Running,
            },
            None => Move {
                effects: three(
                    Effect::SetStatus(Status::Running),
                    Effect::SetStatus(Status::Failed),
                    Effect::AppendLog(error_msg(missing_run_msg().as_str())),
                ),
                next: Work::Finish(Err(missing_run_msg())),
                phase: Phase::Done,
                status: Status::Failed,
            },
        }
    }

    fn build_move(&self) -> (r: Move)
        ensures
            realizes(r, enter_build(self@)),
    {
        match &self.build_cmd {
            Some(cmd) => Move {
                effects: two(
                    Effect::SetStatus(Status::Building),
                    Effect::AppendLog(build_msg(cmd.as_str())),
                ),
                next: Work::Shell { cmd: cmd.clone(), dir: self.dir.clone() },
                phase: Phase::Building,
                status: Status::Building,
            },
            None => self.run_move(),
        }
    }

    fn install_move(&self) -> (r: Move)
        ensures
            realizes(r, enter_install(self@)),
    {
        match &self.install_cmd {
            Some(cmd) => Move {
                effects: two(
                    Effect::SetStatus(Status::Installing),
                    Effect::AppendLog(install_msg(cmd.as_str())),
                ),
                next: Work::Shell { cmd: cmd.clone(), dir: self.dir.clone() },
                phase: Phase::Installing,
                status: Status::Installing,
            },
            None => self.build_move(),
        }
    }

    /// Prefixes the effects of `mv` with `head`.
    fn after(head: Vec<Effect>, mv: Move) -> (r: Move)
        ensures
            effects_view(r.effects) == effects_view(head) + effects_view(mv.effects),
            r.next == mv.next,
            r.phase == mv.phase,
            r.status == mv.status,
    {
        Move { effects: chain(head, mv.effects), next: mv.next, phase: mv.phase, status: mv.status }
    }

    fn revision_move(&self, stdout: String) -> (r: Move)
        ensures
            realizes(r, after_revision(self@, stdout@)),
    {
        let hash = trim(stdout.as_str());
        let head = one(Effect::SetCommit(String::from_str(hash)));
        let env = match &self.env {
            Some(text) => two(
                Effect::WriteFile(env_file(self.dir.as_str()), text.clone()),
                Effect::AppendLog(env_created_msg()),
            ),
            None => Vec::new(),
        };
        proof {
            if self.env is None {
                assert(effects_view(env) =~= Seq::<EffectView>::empty());
            }
        }
        Self::after(chain(head, env), self.install_move())
    }

    fn react_move(&self, ev: Event) -> (r: Option<Move>)
        ensures
            match react(self@, ev@) {
                Some(a) => r matches Some(mv) && realizes(mv, a),
                None => r is None,
            },
    {
        match (self.phase, ev) {
            (Phase::Ready, Event::Begin) => Some(
                Move {
                    effects: two(
                        Effect::AppendLog(cloning_msg(self.git_repo.as_str(), self.dir.as_str())),
                        Effect::CreateDir(self.dir.clone()),
                    ),
                    next: Work::Clone { repo: self.git_repo.clone(), dir: self.dir.clone() },
                    phase: Phase::Cloning,
                    status: self.status,
                },
            ),
            (Phase::Cloning, Event::Cloned { success, stdout, stderr }) => Some(
                if success {
                    Move {
                        effects: one(Effect::AppendLog(stdout)),
                        next: Work::RevParse { dir: self.dir.clone() },
                        phase: Phase::Revision,
                        status: self.status,
                    }
                } else {
                    Self::fail_move(stdout, stderr)
                },
            ),
            (Phase::Revision, Event::Revision { stdout }) => Some(self.revision_move(stdout)),
            (Phase::Installing, Event::Ran { success, stdout, stderr }) => Some(
                if success {
                    Self::after(one(Effect::AppendLog(stdout)), self.build_move())
                } else {
                    Self::fail_move(stdout, stderr)
                },
            ),
            (Phase::Building, Event::Ran { success, stdout, stderr }) => Some(
                if success {
                    Self::after(one(Effect::AppendLog(stdout)), self.run_move())
                } else {
                    Self::fail_move(stdout, stderr)
                },
            ),
            (Phase::Spawning, Event::Spawned { pid }) => {
                let effects = match pid {
                    Some(p) => one(
                        Effect::WriteFile(pid_file(self.dir.as_str()), pid_marker(p)),
                    ),
                    None => Vec::new(),
                };
                proof {
                    if pid is None {
                        assert(effects_view(effects) =~= Seq::<EffectView>::empty());
                    }
                }
                Some(Move { effects, next: Work::Watch, phase: Phase::Watching, status: self.status })
            },
            (Phase::Watching, Event::Stdout(line)) => Some(
                Move {
                    effects: one(Effect::AppendLog(output_msg(line.as_str()))),
                    next: Work::Watch,
                    phase: Phase::Watching,
                    status: self.status,
                },
            ),
            (Phase::Watching, Event::Stderr(line)) => Some(
                Move {
                    effects: one(Effect::AppendLog(error_msg(line.as_str()))),
                    next: Work::Watch,
                    phase: Phase::Watching,
                    status: self.status,
                },
            ),
            (Phase::Watching, Event::Exited(outcome)) => {
                let how = exit_msg(&outcome);
                Some(
                    Move {
                        effects: three(
                            Effect::RemoveFile(pid_file(self.dir.as_str())),
                            Effect::SetStatus(Status::Stopped),
                            Effect::AppendLog(terminated_msg(how.as_str())),
                        ),
                        next: Work::Finish(Ok(())),
                        phase: Phase::Done,
                        status: Status::Stopped,
                    },
                )
            },
            _ => None,
        }
    }

    /// Takes the outcome of the awaited work (or `Event::Begin` on a fresh
    /// pipeline) and returns the effects to carry out, in order, and the work
    /// to wait on next. An event that does not answer the awaited work changes
    /// nothing and asks for nothing.
    pub fn handle(&mut self, ev: Event) -> (r: Plan)
        requires
            old(self).inv(),
        ensures
            (final(self)@, r@) == step(old(self)@, ev@),
            final(self).inv(),
    {
        proof {
            lemma_step_well_formed(self@, ev@);
        }
        let ghost ev_view = ev@;
        match self.react_move(ev) {
            Some(mv) => {
                let ghost effs = effects_view(mv.effects);
                self.phase = mv.phase;
                self.status = mv.status;
                self.history = Ghost(self.history@ + statuses(effs));
                self.log = Ghost(self.log@ + appended(effs));
                Plan { effects: mv.effects, next: mv.next }
            },
            None => {
                let next = self.awaiting();
                let r = Plan { effects: Vec::new(), next };
                assert(r@.effects =~= Seq::<EffectView>::empty());
                r
            },
        }
    }
}

} // verus!
