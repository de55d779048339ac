use simple_http_server::bind::{BindAction, BindEvent, BindState};

/// Runs the search in a world where `resolve[c]` is the number of addresses of
/// the candidate `c`, if it resolves, and `binds` holds the addresses that can
/// be bound. Gives back every action that was asked for.
fn run(resolve: &[Option<usize>], binds: &[(usize, usize)]) -> Vec<BindAction> {
    let candidates = resolve.len();
    let mut state = BindState::start(candidates);
    let mut asked = Vec::new();
    loop {
        let action = state.action();
        asked.push(action);
        let event = match action {
            BindAction::Resolve { candidate } => match resolve[candidate] {
                Some(count) => BindEvent::Resolved { count },
                None => BindEvent::ResolveFailed,
            },
            BindAction::Bind { candidate, address } => {
                if binds.contains(&(candidate, address)) {
                    BindEvent::Bound
                } else {
                    BindEvent::BindFailed
                }
            }
            BindAction::Listen { .. } | BindAction::GiveUp => return asked,
        };
        state = state.next(event, candidates);
        assert!(asked.len() < 1000, "the search does not end");
    }
}

#[test]
fn bind_fallback_order() {
    // "bad-host:1" does not resolve, "127.0.0.1:9999" binds, "127.0.0.1:9998" is never tried
    let asked = run(&[None, Some(1), Some(1)], &[(1, 0), (2, 0)]);
    assert_eq!(
        asked,
        vec![
            BindAction::Resolve { candidate: 0 },
            BindAction::Resolve { candidate: 1 },
            BindAction::Bind { candidate: 1, address: 0 },
            BindAction::Listen { candidate: 1, address: 0 },
        ]
    );
}

#[test]
fn first_candidate_that_binds_is_taken_at_once() {
    let asked = run(&[Some(2), Some(1)], &[(0, 0), (0, 1), (1, 0)]);
    assert_eq!(
        asked,
        vec![
            BindAction::Resolve { candidate: 0 },
            BindAction::Bind { candidate: 0, address: 0 },
            BindAction::Listen { candidate: 0, address: 0 },
        ]
    );
}

#[test]
fn addresses_of_one_candidate_are_tried_in_order() {
    let asked = run(&[Some(3), Some(1)], &[(0, 2), (1, 0)]);
    assert_eq!(
        asked,
        vec![
            BindAction::Resolve { candidate: 0 },
            BindAction::Bind { candidate: 0, address: 0 },
            BindAction::Bind { candidate: 0, address: 1 },
            BindAction::Bind { candidate: 0, address: 2 },
            BindAction::Listen { candidate: 0, address: 2 },
        ]
    );
}

#[test]
fn next_candidate_follows_the_last_address() {
    let asked = run(&[Some(2), Some(0), None, Some(1)], &[(3, 0)]);
    assert_eq!(
        asked,
        vec![
            BindAction::Resolve { candidate: 0 },
            BindAction::Bind { candidate: 0, address: 0 },
            BindAction::Bind { candidate: 0, address: 1 },
            BindAction::Resolve { candidate: 1 },
            BindAction::Resolve { candidate: 2 },
            BindAction::Resolve { candidate: 3 },
            BindAction::Bind { candidate: 3, address: 0 },
            BindAction::Listen { candidate: 3, address: 0 },
        ]
    );
}

#[test]
fn search_gives_up_when_nothing_binds() {
    let asked = run(&[None, Some(2), Some(0)], &[]);
    assert_eq!(
        asked,
        vec![
            BindAction::Resolve { candidate: 0 },
            BindAction::Resolve { candidate: 1 },
            BindAction::Bind { candidate: 1, address: 0 },
            BindAction::Bind { candidate: 1, address: 1 },
            BindAction::Resolve { candidate: 2 },
            BindAction::GiveUp,
        ]
    );
}

#[test]
fn search_without_candidates_gives_up_at_once() {
    assert_eq!(BindState::start(0), BindState::Failed);
    assert_eq!(run(&[], &[]), vec![BindAction::GiveUp]);
}

#[test]
fn start_is_the_first_candidate() {
    assert_eq!(BindState::start(3), BindState::Resolving { candidate: 0 });
    assert_eq!(BindState::start(3).action(), BindAction::Resolve { candidate: 0 });
}

#[test]
fn finished_search_stays_finished() {
    let bound = BindState::Bound { candidate: 1, address: 0 };
    let events = [
        BindEvent::Resolved { count: 2 },
        BindEvent::ResolveFailed,
        BindEvent::Bound,
        BindEvent::BindFailed,
    ];
    for event in events {
        assert_eq!(bound.next(event, 3), bound);
        assert_eq!(BindState::Failed.next(event, 3), BindState::Failed);
    }
}

#[test]
fn event_that_answers_nothing_changes_nothing() {
    let resolving = BindState::Resolving { candidate: 1 };
    assert_eq!(resolving.next(BindEvent::Bound, 3), resolving);
    assert_eq!(resolving.next(BindEvent::BindFailed, 3), resolving);
    let binding = BindState::Binding { candidate: 1, address: 0, count: 2 };
    assert_eq!(binding.next(BindEvent::Resolved { count: 5 }, 3), binding);
    assert_eq!(binding.next(BindEvent::ResolveFailed, 3), binding);
}

#[test]
fn next_at_the_limits() {
    let last = BindState::Resolving { candidate: usize::MAX };
    assert_eq!(last.next(BindEvent::ResolveFailed, usize::MAX), BindState::Failed);
    let binding = BindState::Binding { candidate: 0, address: usize::MAX, count: usize::MAX };
    assert_eq!(binding.next(BindEvent::BindFailed, 1), BindState::Failed);
    let binding = BindState::Binding { candidate: 0, address: usize::MAX - 1, count: usize::MAX };
    assert_eq!(binding.next(BindEvent::BindFailed, 2), BindState::Resolving { candidate: 1 });
}
