//! The daemon's own state: who needs it, and whether it is to go away.

use vstd::prelude::*;

verus! {

/// The leases that keep the daemon alive, and what its clients asked of it.
#[derive(Debug)]
pub struct ControlState {
    pub leases: Vec<String>,
    pub allow_shutdown: bool,
    pub shutdown_requested: bool,
}

/// The tokens in a list.
pub open spec fn tokens(list: Seq<String>) -> Set<Seq<char>> {
    Set::new(|token: Seq<char>| exists|i: int| 0 <= i < list.len() && #[trigger] list[i]@ == token)
}

/// No token stands twice in a list.
pub open spec fn distinct(list: Seq<String>) -> bool {
    forall|i: int, j: int|
        0 <= i < j < list.len() ==> #[trigger] list[i]@ != #[trigger] list[j]@
}

impl ControlState {
    /// The state is in order: no lease is held twice.
    pub open spec fn wf(self) -> bool {
        distinct(self.leases@)
    }

    /// A daemon that nobody holds a lease on.
    pub fn new(allow_shutdown: bool) -> (state: ControlState)
        ensures
            state.wf(),
            tokens(state.leases@) == Set::<Seq<char>>::empty(),
            state.allow_shutdown == allow_shutdown,
            !state.shutdown_requested,
    {
        let state = ControlState { leases: Vec::new(), allow_shutdown, shutdown_requested: false };
        assert(tokens(state.leases@) =~= Set::<Seq<char>>::empty());
        state
    }

    /// Drops the leases that `stale` names.
    pub fn prune_stale_leases(&mut self, stale: &Vec<String>)
        requires
            old(self).wf(),
        ensures
            final(self).wf(),
            tokens(final(self).leases@) == tokens(old(self).leases@).difference(tokens(stale@)),
            final(self).allow_shutdown == old(self).allow_shutdown,
            final(self).shutdown_requested == old(self).shutdown_requested,
    {
        let mut i: usize = 0;
        while i < stale.len()
            invariant
                i <= stale@.len(),
                self.wf(),
                tokens(self.leases@) == tokens(old(self).leases@).difference(
                    tokens(stale@.take(i as int)),
                ),
                self.allow_shutdown == old(self).allow_shutdown,
                self.shutdown_requested == old(self).shutdown_requested,
            decreases stale@.len() - i,
        {
            self.release(stale[i].as_str());
            proof {
                let done = stale@.take(i as int);
                let next = stale@.take(i + 1);
                assert(next =~= done.push(stale@[i as int]));
                assert forall|token: Seq<char>| tokens(next).contains(token) <==> (tokens(
                    done,
                ).contains(token) || token == stale@[i as int]@) by {
                    if tokens(done).contains(token) {
                        let k = choose|k: int| 0 <= k < done.len() && #[trigger] done[k]@ == token;
                        assert(next[k]@ == token);
                    }
                    assert(next[i as int]@ == stale@[i as int]@);
                    if tokens(next).contains(token) && token != stale@[i as int]@ {
                        let k = choose|k: int| 0 <= k < next.len() && #[trigger] next[k]@ == token;
                        assert(done[k]@ == token);
                    }
                }
                assert(tokens(self.leases@) =~= tokens(old(self).leases@).difference(tokens(next)));
            }
            i += 1;
        }
        assert(stale@.take(i as int) =~= stale@);
    }

    /// Whether nobody holds a lease.
    pub fn is_idle(&self) -> (idle: bool)
        ensures
            idle == (tokens(self.leases@) == Set::<Seq<char>>::empty()),
    {
        let idle: bool = self.leases.len() == 0;
        proof {
            if idle {
                assert(tokens(self.leases@) =~= Set::<Seq<char>>::empty());
            } else {
                assert(tokens(self.leases@).contains(self.leases@[0]@));
            }
        }
        idle
    }

    /// Takes the lease `token`, if it is not held already.
    pub fn acquire(&mut self, token: String)
        requires
            old(self).wf(),
        ensures
            final(self).wf(),
            tokens(final(self).leases@) == tokens(old(self).leases@).insert(token@),
            final(self).allow_shutdown == old(self).allow_shutdown,
            final(self).shutdown_requested == old(self).shutdown_requested,
    {
        let mut i: usize = 0;
        while i < self.leases.len()
            invariant
                i <= self.leases@.len(),
                *self == *old(self),
                self.wf(),
                forall|j: int| 0 <= j < i ==> #[trigger] self.leases@[j]@ != token@,
            decreases self.leases@.len() - i,
        {
            if self.leases[i] == token {
                assert(tokens(self.leases@) =~= tokens(self.leases@).insert(token@));
                return;
            }
            i += 1;
        }
        let ghost before = self.leases@;
        self.leases.push(token);
        proof {
            let after = self.leases@;
            assert forall|t: Seq<char>| tokens(after).contains(t) <==> (tokens(before).contains(t)
                || t == token@) by {
                if tokens(before).contains(t) {
                    let k = choose|k: int| 0 <= k < before.len() && #[trigger] before[k]@ == t;
                    assert(after[k]@ == t);
                }
                assert(after[before.len() as int]@ == token@);
                if tokens(after).contains(t) && t != token@ {
                    let k = choose|k: int| 0 <= k < after.len() && #[trigger] after[k]@ == t;
                    assert(before[k]@ == t);
                }
            }
            assert(tokens(after) =~= tokens(before).insert(token@));
        }
    }

    /// Gives the lease `token` back, if it is held.
    pub fn release(&mut self, token: &str)
        requires
            old(self).wf(),
        ensures
            final(self).wf(),
            tokens(final(self).leases@) == tokens(old(self).leases@).remove(token@),
            final(self).allow_shutdown == old(self).allow_shutdown,
            final(self).shutdown_requested == old(self).shutdown_requested,
    {
        let wanted = token.to_string();
        let mut i: usize = 0;
        while i < self.leases.len()
            invariant
                i <= self.leases@.len(),
                *self == *old(self),
                self.wf(),
                wanted@ == token@,
                forall|j: int| 0 <= j < i ==> #[trigger] self.leases@[j]@ != token@,
            decreases self.leases@.len() - i,
        {
            if self.leases[i] == wanted {
                let ghost before = self.leases@;
                self.leases.remove(i);
                proof {
                    let after = self.leases@;
                    assert forall|t: Seq<char>| tokens(after).contains(t) <==> (tokens(
                        before,
                    ).contains(t) && t != token@) by {
                        if tokens(after).contains(t) {
                            let k = choose|k: int| 0 <= k < after.len() && #[trigger] after[k]@ == t;
                            if k < i {
                                assert(before[k]@ == t);
                            } else {
                                assert(before[k + 1]@ == t);
                                assert(before[i as int]@ != before[k + 1]@);
                            }
                        }
                        if tokens(before).contains(t) && t != token@ {
                            let k = choose|k: int|
                                0 <= k < before.len() && #[trigger] before[k]@ == t;
                            if k < i {
                                assert(after[k]@ == t);
                            } else {
                                assert(after[k - 1]@ == t);
                            }
                        }
                    }
                    assert(tokens(after) =~= tokens(before).remove(token@));
                    assert(distinct(after)) by {
                        assert forall|a: int, b: int| 0 <= a < b < after.len() implies
                            #[trigger] after[a]@ != #[trigger] after[b]@ by {
                            let x = if a < i { a } else { a + 1 };
                            let y = if b < i { b } else { b + 1 };
                            assert(before[x]@ != before[y]@);
                        }
                    }
                }
                return;
            }
            i += 1;
        }
        assert(tokens(self.leases@) =~= tokens(self.leases@).remove(token@));
    }
}

} // verus!
