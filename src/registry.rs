use vstd::prelude::*;

verus! {

/// The active deployment of each project: at most one per project, by
/// construction. Holding it under one lock serializes the stop-then-start
/// sequence of deployments of the same project.
pub struct Registry {
    entries: Vec<(i32, i64)>,
}

impl View for Registry {
    type V = Map<i32, i64>;

    closed spec fn view(&self) -> Map<i32, i64> {
        Map::new(
            |p: i32| exists|i: int| 0 <= i < self.entries@.len() && #[trigger] self.entries@[i].0 == p,
            |p: i32|
                self.entries@[choose|i: int| 0 <= i < self.entries@.len() && #[trigger] self.entries@[i].0 == p].1,
        )
    }
}

impl Registry {
    /// No project appears twice.
    pub closed spec fn inv(&self) -> bool {
        forall|i: int, j: int|
            0 <= i < j < self.entries@.len() ==> #[trigger] self.entries@[i].0 != #[trigger] self.entries@[j].0
    }

    proof fn lemma_entry(&self, i: int)
        requires
            self.inv(),
            0 <= i < self.entries@.len(),
        ensures
            self@.contains_key(self.entries@[i].0),
            self@[self.entries@[i].0] == self.entries@[i].1,
    {
        let p = self.entries@[i].0;
        assert(self@.dom().contains(p));
        let k = choose|k: int| 0 <= k < self.entries@.len() && #[trigger] self.entries@[k].0 == p;
        if k != i {
            if k < i {
                assert(self.entries@[k].0 != self.entries@[i].0);
            } else {
                assert(self.entries@[i].0 != self.entries@[k].0);
            }
        }
    }

    pub fn new() -> (r: Registry)
        ensures
            r.inv(),
            r@ == Map::<i32, i64>::empty(),
    {
        let r = Registry { entries: Vec::new() };
        assert(r@ =~= Map::<i32, i64>::empty());
        r
    }

    fn position(&self, project: i32) -> (r: Option<usize>)
        requires
            self.inv(),
        ensures
            match r {
                Some(i) => i < self.entries@.len() && self.entries@[i as int].0 == project,
                None => !self@.contains_key(project),
            },
    {
        let mut i: usize = 0;
        while i < self.entries.len()
            invariant
                i <= self.entries@.len(),
                forall|k: int| 0 <= k < i ==> #[trigger] self.entries@[k].0 != project,
            decreases self.entries@.len() - i,
        {
            if self.entries[i].0 == project {
                return Some(i);
            }
            i = i + 1;
        }
        None
    }

    /// The active deployment of `project`, if any.
    pub fn active(&self, project: i32) -> (r: Option<i64>)
        requires
            self.inv(),
        ensures
            r == (if self@.contains_key(project) {
                Some(self@[project])
            } else {
                None
            }),
    {
        match self.position(project) {
            Some(i) => {
                proof {
                    self.lemma_entry(i as int);
                }
                Some(self.entries[i].1)
            },
            None => None,
        }
    }

    /// Makes `deployment` the active deployment of `project` and hands back
    /// the one it supersedes, which the caller must stop.
    pub fn supersede(&mut self, project: i32, deployment: i64) -> (prev: Option<i64>)
        requires
            old(self).inv(),
        ensures
            final(self).inv(),
            final(self)@ == old(self)@.insert(project, deployment),
            prev == (if old(self)@.contains_key(project) {
                Some(old(self)@[project])
            } else {
                None
            }),
    {
        let ghost before = self@;
        match self.position(project) {
            Some(i) => {
                proof {
                    self.lemma_entry(i as int);
                }
                let prev = self.entries[i].1;
                self.entries.set(i, (project, deployment));
                proof {
                    assert forall|q: i32| #[trigger] self@.contains_key(q) == before.insert(project, deployment).contains_key(q) by {
                        if before.contains_key(q) {
                            let k = choose|k: int| 0 <= k < old(self).entries@.len() && #[trigger] old(self).entries@[k].0 == q;
                            assert(self.entries@[k].0 == q);
                        }
                        if self@.contains_key(q) && q != project {
                            let k = choose|k: int| 0 <= k < self.entries@.len() && #[trigger] self.entries@[k].0 == q;
                            assert(old(self).entries@[k].0 == q);
                        }
                    }
                    assert forall|q: i32| #[trigger] self@.contains_key(q) implies self@[q] == before.insert(project, deployment)[q] by {
                        let k = choose|k: int| 0 <= k < self.entries@.len() && #[trigger] self.entries@[k].0 == q;
                        self.lemma_entry(k);
                        if q != project {
                            old(self).lemma_entry(k);
                        }
                    }
                    assert(self@ =~= before.insert(project, deployment));
                }
                Some(prev)
            },
            None => {
                self.entries.push((project, deployment));
                proof {
                    let n = self.entries@.len() - 1;
                    assert forall|q: i32| #[trigger] self@.contains_key(q) == before.insert(project, deployment).contains_key(q) by {
                        if before.contains_key(q) {
                            let k = choose|k: int| 0 <= k < old(self).entries@.len() && #[trigger] old(self).entries@[k].0 == q;
                            assert(self.entries@[k].0 == q);
                        }
                        if q == project {
                            assert(self.entries@[n].0 == q);
                        }
                        if self@.contains_key(q) && q != project {
                            let k = choose|k: int| 0 <= k < self.entries@.len() && #[trigger] self.entries@[k].0 == q;
                            assert(old(self).entries@[k].0 == q);
                        }
                    }
                    assert forall|q: i32| #[trigger] self@.contains_key(q) implies self@[q] == before.insert(project, deployment)[q] by {
                        let k = choose|k: int| 0 <= k < self.entries@.len() && #[trigger] self.entries@[k].0 == q;
                        self.lemma_entry(k);
                        if k < n {
                            old(self).lemma_entry(k);
                        }
                    }
                    assert(self@ =~= before.insert(project, deployment));
                }
                None
            },
        }
    }
}

impl Registry {
    /// Ends the registration of `deployment` as the active deployment of
    /// `project`; says whether it was. A deployment already superseded leaves
    /// its successor in place.
    pub fn release(&mut self, project: i32, deployment: i64) -> (r: bool)
        requires
            old(self).inv(),
        ensures
            final(self).inv(),
            r == (old(self)@.contains_key(project) && old(self)@[project] == deployment),
            final(self)@ == (if r {
                old(self)@.remove(project)
            } else {
                old(self)@
            }),
    {
        let ghost before = self@;
        match self.position(project) {
            Some(i) => {
                proof {
                    self.lemma_entry(i as int);
                }
                if self.entries[i].1 != deployment {
                    return false;
                }
                let ghost e = self.entries@;
                self.entries.remove(i);
                proof {
                    assert forall|a: int, b: int| 0 <= a < b < self.entries@.len() implies #[trigger] self.entries@[a].0 != #[trigger] self.entries@[b].0 by {
                        let a2 = if a < i { a } else { a + 1 };
                        let b2 = if b < i { b } else { b + 1 };
                        assert(e[a2].0 != e[b2].0);
                    }
                    assert forall|q: i32| #[trigger] self@.contains_key(q) == before.remove(project).contains_key(q) by {
                        if before.contains_key(q) && q != project {
                            let k = choose|k: int| 0 <= k < e.len() && #[trigger] e[k].0 == q;
                            if k < i {
                                assert(self.entries@[k].0 == q);
                            } else {
                                assert(self.entries@[k - 1].0 == q);
                            }
                        }
                        if self@.contains_key(q) {
                            let k = choose|k: int| 0 <= k < self.entries@.len() && #[trigger] self.entries@[k].0 == q;
                            let k2 = if k < i { k } else { k + 1 };
                            assert(e[k2].0 == q);
                            assert(k2 != i);
                            if k2 < i {
                                assert(e[k2].0 != e[i as int].0);
                            } else {
                                assert(e[i as int].0 != e[k2].0);
                            }
                        }
                    }
                    assert forall|q: i32| #[trigger] self@.contains_key(q) implies self@[q] == before.remove(project)[q] by {
                        let k = choose|k: int| 0 <= k < self.entries@.len() && #[trigger] self.entries@[k].0 == q;
                        self.lemma_entry(k);
                        let k2 = if k < i { k } else { k + 1 };
                        old(self).lemma_entry(k2);
                    }
                    assert(self@ =~= before.remove(project));
                }
                true
            },
            None => false,
        }
    }
}

/// Two deploy requests for the same project, one after the other: the second
/// supersedes the first, which is handed back to be stopped, and exactly the
/// second is left active for that project; other projects are untouched.
pub proof fn lemma_back_to_back(r: Map<i32, i64>, project: i32, first: i64, second: i64)
    ensures
        ({
            let after_first = r.insert(project, first);
            let after_second = after_first.insert(project, second);
            &&& after_first.contains_key(project) && after_first[project] == first
            &&& after_second.contains_key(project) && after_second[project] == second
            &&& forall|q: i32| q != project ==> #[trigger] after_second.contains_key(q) == r.contains_key(q)
                && (r.contains_key(q) ==> after_second[q] == r[q])
        }),
{
}

} // verus!
