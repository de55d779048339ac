//! The order in which listening addresses are tried.
//!
//! The candidates are address strings, tried in their order. One string may
//! resolve to several addresses, which are tried in their order too. The
//! first address that can be bound is taken, and nothing after it is tried.
//! Resolving and binding happen outside: the caller does what `action` says
//! and hands the result to `next`.

use vstd::prelude::*;

verus! {

/// Where the search for a listening address stands.
#[derive(Debug, Clone, Copy, PartialEq, Eq)]
pub enum BindState {
    /// The candidate is to be resolved.
    Resolving { candidate: usize },
    /// The address `address` of the `count` addresses of the candidate is to
    /// be bound.
    Binding { candidate: usize, address: usize, count: usize },
    /// The search is over: this address of this candidate was bound.
    Bound { candidate: usize, address: usize },
    /// The search is over: nothing could be bound.
    Failed,
}

/// What is to be done next.
#[derive(Debug, Clone, Copy, PartialEq, Eq)]
pub enum BindAction {
    /// Resolve the candidate to its addresses.
    Resolve { candidate: usize },
    /// Try to bind this address of this candidate.
    Bind { candidate: usize, address: usize },
    /// Listen on this address of this candidate, which was bound.
    Listen { candidate: usize, address: usize },
    /// Leave: there is nothing to listen on.
    GiveUp,
}

/// What came of the last action.
#[derive(Debug, Clone, Copy, PartialEq, Eq)]
pub enum BindEvent {
    /// The candidate resolved to `count` addresses.
    Resolved { count: usize },
    /// The candidate could not be resolved.
    ResolveFailed,
    /// The address was bound.
    Bound,
    /// The address could not be bound.
    BindFailed,
}

/// The state in which the candidate `candidate` of `candidates` is up, if
/// there is such a candidate.
pub open spec fn spec_resolving(candidate: int, candidates: int) -> BindState {
    if 0 <= candidate < candidates {
        BindState::Resolving { candidate: candidate as usize }
    } else {
        BindState::Failed
    }
}

/// The state after `event` came in in `state`, with `candidates` candidates
/// in all. A candidate that does not resolve, or resolves to no address, is
/// passed over. An address that cannot be bound is passed over. Once an
/// address is bound the search is over. An event that does not answer what
/// the state asked for changes nothing.
pub open spec fn spec_next(state: BindState, event: BindEvent, candidates: usize) -> BindState {
    match (state, event) {
        (BindState::Resolving { candidate }, BindEvent::Resolved { count }) => if count > 0 {
            BindState::Binding { candidate, address: 0, count }
        } else {
            spec_resolving(candidate + 1, candidates as int)
        },
        (BindState::Resolving { candidate }, BindEvent::ResolveFailed) => spec_resolving(
            candidate + 1,
            candidates as int,
        ),
        (BindState::Binding { candidate, address, count }, BindEvent::Bound) => BindState::Bound {
            candidate,
            address,
        },
        (BindState::Binding { candidate, address, count }, BindEvent::BindFailed) => if address + 1
            < count {
            BindState::Binding { candidate, address: (address + 1) as usize, count }
        } else {
            spec_resolving(candidate + 1, candidates as int)
        },
        _ => state,
    }
}

/// The state in which the candidate `candidate` of `candidates` is up, if
/// there is such a candidate.
fn resolving(candidate: usize, candidates: usize) -> (state: BindState)
    ensures
        state == spec_resolving(candidate as int, candidates as int),
{
    if candidate < candidates {
        BindState::Resolving { candidate }
    } else {
        BindState::Failed
    }
}

/// The state in which the candidate after `candidate` is up, if there is one.
fn after(candidate: usize, candidates: usize) -> (state: BindState)
    ensures
        state == spec_resolving(candidate + 1, candidates as int),
{
    if candidate < candidates {
        resolving(candidate + 1, candidates)
    } else {
        BindState::Failed
    }
}

impl BindState {
    /// The state before anything was tried, with `candidates` candidates.
    pub fn start(candidates: usize) -> (state: BindState)
        ensures
            state == spec_resolving(0, candidates as int),
    {
        resolving(0, candidates)
    }

    /// What is to be done in this state.
    pub open spec fn spec_action(self) -> BindAction {
        match self {
            BindState::Resolving { candidate } => BindAction::Resolve { candidate },
            BindState::Binding { candidate, address, count } => BindAction::Bind {
                candidate,
                address,
            },
            BindState::Bound { candidate, address } => BindAction::Listen { candidate, address },
            BindState::Failed => BindAction::GiveUp,
        }
    }

    /// What is to be done in this state.
    pub fn action(&self) -> (action: BindAction)
        ensures
            action == self.spec_action(),
    {
        match self {
            BindState::Resolving { candidate } => BindAction::Resolve { candidate: *candidate },
            BindState::Binding { candidate, address, .. } => BindAction::Bind {
                candidate: *candidate,
                address: *address,
            },
            BindState::Bound { candidate, address } => BindAction::Listen {
                candidate: *candidate,
                address: *address,
            },
            BindState::Failed => BindAction::GiveUp,
        }
    }

    /// The state after `event` came in, with `candidates` candidates in all.
    pub fn next(self, event: BindEvent, candidates: usize) -> (state: BindState)
        ensures
            state == spec_next(self, event, candidates),
    {
        match self {
            BindState::Resolving { candidate } => match event {
                BindEvent::Resolved { count } => {
                    if count > 0 {
                        BindState::Binding { candidate, address: 0, count }
                    } else {
                        after(candidate, candidates)
                    }
                },
                BindEvent::ResolveFailed => after(candidate, candidates),
                _ => self,
            },
            BindState::Binding { candidate, address, count } => match event {
                BindEvent::Bound => BindState::Bound { candidate, address },
                BindEvent::BindFailed => {
                    if address < count && address + 1 < count {
                        BindState::Binding { candidate, address: address + 1, count }
                    } else {
                        after(candidate, candidates)
                    }
                },
                _ => self,
            },
            _ => self,
        }
    }
}

/// What comes of the action of `state` in a world in which the candidate `c`
/// resolves to `resolve(c)` addresses, or not at all where that is `None`,
/// and in which the address `a` of the candidate `c` can be bound where
/// `binds(c, a)` holds.
pub open spec fn answer(
    state: BindState,
    resolve: spec_fn(int) -> Option<usize>,
    binds: spec_fn(int, int) -> bool,
) -> BindEvent {
    match state {
        BindState::Resolving { candidate } => match resolve(candidate as int) {
            Some(count) => BindEvent::Resolved { count },
            None => BindEvent::ResolveFailed,
        },
        BindState::Binding { candidate, address, count } => if binds(
            candidate as int,
            address as int,
        ) {
            BindEvent::Bound
        } else {
            BindEvent::BindFailed
        },
        _ => BindEvent::BindFailed,
    }
}

/// How many candidates are still to come in `state`, the one that is up
/// counted in.
pub open spec fn candidates_left(state: BindState, candidates: usize) -> int {
    match state {
        BindState::Resolving { candidate } => if candidate < candidates {
            candidates - candidate
        } else {
            0
        },
        BindState::Binding { candidate, address, count } => if candidate < candidates {
            candidates - candidate
        } else {
            0
        },
        _ => 0,
    }
}

/// How many addresses of the candidate that is up are still to come in
/// `state`, and one more while an address is up.
pub open spec fn addresses_left(state: BindState) -> int {
    match state {
        BindState::Binding { candidate, address, count } => if address < count {
            count - address + 1
        } else {
            1
        },
        _ => 0,
    }
}

/// The state in which the search ends when it goes on from `state` in the
/// world of `resolve` and `binds`.
pub open spec fn run(
    state: BindState,
    candidates: usize,
    resolve: spec_fn(int) -> Option<usize>,
    binds: spec_fn(int, int) -> bool,
) -> BindState
    decreases
            candidates_left(state, candidates),
            (if state is Resolving {
                1int
            } else {
                0int
            }),
            addresses_left(state),
{
    match state {
        BindState::Bound { .. } => state,
        BindState::Failed => state,
        _ => run(spec_next(state, answer(state, resolve, binds), candidates), candidates, resolve, binds),
    }
}

/// In the world of `resolve` and `binds`, the address `address` of the
/// candidate `candidate` is one that the search can come to and that can be
/// bound.
pub open spec fn binds_at(
    candidate: int,
    address: int,
    candidates: usize,
    resolve: spec_fn(int) -> Option<usize>,
    binds: spec_fn(int, int) -> bool,
) -> bool {
    &&& 0 <= candidate < candidates
    &&& resolve(candidate) matches Some(count)
    &&& 0 <= address < count
    &&& binds(candidate, address)
}

/// The address `a1` of the candidate `c1` is tried before the address `a2`
/// of the candidate `c2`.
pub open spec fn tried_before(c1: int, a1: int, c2: int, a2: int) -> bool {
    c1 < c2 || (c1 == c2 && a1 < a2)
}

/// Nothing that is tried before the address `a` of the candidate `c` can be
/// bound.
pub open spec fn nothing_binds_before(
    c: int,
    a: int,
    candidates: usize,
    resolve: spec_fn(int) -> Option<usize>,
    binds: spec_fn(int, int) -> bool,
) -> bool {
    forall|c1: int, a1: int| #[trigger]
        binds_at(c1, a1, candidates, resolve, binds) ==> !tried_before(c1, a1, c, a)
}

/// The search ended in `end` as it should: on the first address, in the order
/// of trying, that can be bound, or in failure where none can.
pub open spec fn first_bind_wins(
    end: BindState,
    candidates: usize,
    resolve: spec_fn(int) -> Option<usize>,
    binds: spec_fn(int, int) -> bool,
) -> bool {
    match end {
        BindState::Bound { candidate, address } => {
            &&& binds_at(candidate as int, address as int, candidates, resolve, binds)
            &&& nothing_binds_before(candidate as int, address as int, candidates, resolve, binds)
        },
        BindState::Failed => forall|c: int, a: int| !#[trigger] binds_at(c, a, candidates, resolve, binds),
        _ => false,
    }
}

/// A search that has passed over nothing that can be bound ends as it should.
proof fn lemma_run_from(
    state: BindState,
    candidates: usize,
    resolve: spec_fn(int) -> Option<usize>,
    binds: spec_fn(int, int) -> bool,
)
    requires
        match state {
            BindState::Resolving { candidate } => {
                &&& candidate < candidates
                &&& nothing_binds_before(candidate as int, 0, candidates, resolve, binds)
            },
            BindState::Binding { candidate, address, count } => {
                &&& candidate < candidates
                &&& address < count
                &&& resolve(candidate as int) == Some(count)
                &&& nothing_binds_before(candidate as int, address as int, candidates, resolve, binds)
            },
            BindState::Bound { candidate, address } => first_bind_wins(
                state,
                candidates,
                resolve,
                binds,
            ),
            BindState::Failed => first_bind_wins(state, candidates, resolve, binds),
        },
    ensures
        first_bind_wins(run(state, candidates, resolve, binds), candidates, resolve, binds),
    decreases
            candidates_left(state, candidates),
            (if state is Resolving {
                1int
            } else {
                0int
            }),
            addresses_left(state),
{
    let following = spec_next(state, answer(state, resolve, binds), candidates);
    match state {
        BindState::Resolving { candidate } => {
            match following {
                BindState::Resolving { candidate: c2 } => {
                    assert forall|c1: int, a1: int| #[trigger]
                        binds_at(c1, a1, candidates, resolve, binds) implies !tried_before(
                        c1,
                        a1,
                        c2 as int,
                        0,
                    ) by {
                        assert(!tried_before(c1, a1, candidate as int, 0));
                    }
                },
                BindState::Failed => {
                    assert forall|c: int, a: int| !#[trigger] binds_at(
                        c,
                        a,
                        candidates,
                        resolve,
                        binds,
                    ) by {
                        if binds_at(c, a, candidates, resolve, binds) {
                            assert(!tried_before(c, a, candidate as int, 0));
                        }
                    }
                },
                _ => {},
            }
            lemma_run_from(following, candidates, resolve, binds);
        },
        BindState::Binding { candidate, address, count } => {
            match following {
                BindState::Resolving { candidate: c2 } => {
                    assert forall|c1: int, a1: int| #[trigger]
                        binds_at(c1, a1, candidates, resolve, binds) implies !tried_before(
                        c1,
                        a1,
                        c2 as int,
                        0,
                    ) by {
                        assert(!tried_before(c1, a1, candidate as int, address as int));
                    }
                },
                BindState::Binding { candidate: c2, address: a2, count: n2 } => {
                    assert forall|c1: int, a1: int| #[trigger]
                        binds_at(c1, a1, candidates, resolve, binds) implies !tried_before(
                        c1,
                        a1,
                        c2 as int,
                        a2 as int,
                    ) by {
                        assert(!tried_before(c1, a1, candidate as int, address as int));
                    }
                },
                BindState::Failed => {
                    assert forall|c: int, a: int| !#[trigger] binds_at(
                        c,
                        a,
                        candidates,
                        resolve,
                        binds,
                    ) by {
                        if binds_at(c, a, candidates, resolve, binds) {
                            assert(!tried_before(c, a, candidate as int, address as int));
                        }
                    }
                },
                _ => {},
            }
            lemma_run_from(following, candidates, resolve, binds);
        },
        _ => {},
    }
}

/// The first address that can be bound wins. Whatever the candidates resolve
/// to and whichever addresses can be bound, the search from the start ends
/// on the first address, in the order of trying, that can be bound, having
/// tried nothing behind it; and it ends in failure exactly where no address
/// of any candidate can be bound.
pub proof fn lemma_first_bind_wins(
    candidates: usize,
    resolve: spec_fn(int) -> Option<usize>,
    binds: spec_fn(int, int) -> bool,
)
    ensures
        first_bind_wins(
            run(spec_resolving(0, candidates as int), candidates, resolve, binds),
            candidates,
            resolve,
            binds,
        ),
{
    lemma_run_from(spec_resolving(0, candidates as int), candidates, resolve, binds);
}

} // verus!
