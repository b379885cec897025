use vproxy::instance::{
    has_finished, initial_state, is_accepting, step, InstanceAction, InstanceEvent, InstanceState,
};

const EVENTS: [InstanceEvent; 6] = [
    InstanceEvent::BindSucceeded,
    InstanceEvent::BindFailed,
    InstanceEvent::RequestArrived,
    InstanceEvent::RequestFinished,
    InstanceEvent::ShutdownRequested,
    InstanceEvent::DrainWindowElapsed,
];

fn sample_states() -> Vec<InstanceState> {
    vec![
        InstanceState::Starting,
        InstanceState::Listening { in_flight: 0 },
        InstanceState::Listening { in_flight: 1 },
        InstanceState::Listening { in_flight: 7 },
        InstanceState::Listening { in_flight: u64::MAX },
        InstanceState::Draining { in_flight: 1 },
        InstanceState::Draining { in_flight: 2 },
        InstanceState::Draining { in_flight: u64::MAX },
        InstanceState::Stopped,
        InstanceState::FailedStartup,
    ]
}

fn rank(state: InstanceState) -> u8 {
    match state {
        InstanceState::Starting => 0,
        InstanceState::Listening { .. } => 1,
        InstanceState::Draining { .. } => 2,
        InstanceState::Stopped => 3,
        InstanceState::FailedStartup => 3,
    }
}

#[test]
fn an_instance_starts_in_starting() {
    assert_eq!(initial_state(), InstanceState::Starting);
    assert!(!has_finished(initial_state()));
    assert!(!is_accepting(initial_state()));
}

#[test]
fn a_successful_bind_starts_the_listening() {
    assert_eq!(
        step(InstanceState::Starting, InstanceEvent::BindSucceeded),
        (InstanceState::Listening { in_flight: 0 }, InstanceAction::Announce)
    );
}

#[test]
fn a_failed_bind_ends_the_instance() {
    assert_eq!(
        step(InstanceState::Starting, InstanceEvent::BindFailed),
        (InstanceState::FailedStartup, InstanceAction::ReportFailure)
    );
    assert!(has_finished(InstanceState::FailedStartup));
}

#[test]
fn requests_are_counted_in_and_out() {
    let (s, a) = step(InstanceState::Listening { in_flight: 0 }, InstanceEvent::RequestArrived);
    assert_eq!((s, a), (InstanceState::Listening { in_flight: 1 }, InstanceAction::Serve));
    let (s, a) = step(s, InstanceEvent::RequestArrived);
    assert_eq!((s, a), (InstanceState::Listening { in_flight: 2 }, InstanceAction::Serve));
    let (s, a) = step(s, InstanceEvent::RequestFinished);
    assert_eq!((s, a), (InstanceState::Listening { in_flight: 1 }, InstanceAction::Nothing));
    let (s, a) = step(s, InstanceEvent::RequestFinished);
    assert_eq!((s, a), (InstanceState::Listening { in_flight: 0 }, InstanceAction::Nothing));
    let (s, a) = step(s, InstanceEvent::RequestFinished);
    assert_eq!((s, a), (InstanceState::Listening { in_flight: 0 }, InstanceAction::Nothing));
}

#[test]
fn a_full_counter_refuses() {
    let full = InstanceState::Listening { in_flight: u64::MAX };
    assert_eq!(step(full, InstanceEvent::RequestArrived), (full, InstanceAction::Refuse));
    assert!(!is_accepting(full));
    assert!(is_accepting(InstanceState::Listening { in_flight: u64::MAX - 1 }));
}

#[test]
fn shutdown_with_nothing_in_flight_stops_at_once() {
    assert_eq!(
        step(InstanceState::Listening { in_flight: 0 }, InstanceEvent::ShutdownRequested),
        (InstanceState::Stopped, InstanceAction::Release)
    );
    assert_eq!(
        step(InstanceState::Starting, InstanceEvent::ShutdownRequested),
        (InstanceState::Stopped, InstanceAction::Release)
    );
}

#[test]
fn shutdown_with_requests_in_flight_drains() {
    let (s, a) = step(InstanceState::Listening { in_flight: 2 }, InstanceEvent::ShutdownRequested);
    assert_eq!((s, a), (InstanceState::Draining { in_flight: 2 }, InstanceAction::StopAccepting));
    let (s, a) = step(s, InstanceEvent::RequestArrived);
    assert_eq!((s, a), (InstanceState::Draining { in_flight: 2 }, InstanceAction::Refuse));
    let (s, a) = step(s, InstanceEvent::RequestFinished);
    assert_eq!((s, a), (InstanceState::Draining { in_flight: 1 }, InstanceAction::Nothing));
    let (s, a) = step(s, InstanceEvent::RequestFinished);
    assert_eq!((s, a), (InstanceState::Stopped, InstanceAction::Release));
    assert!(has_finished(s));
}

#[test]
fn the_drain_window_aborts_what_is_left() {
    assert_eq!(
        step(InstanceState::Draining { in_flight: 3 }, InstanceEvent::DrainWindowElapsed),
        (InstanceState::Stopped, InstanceAction::AbortAndRelease { aborted: 3 })
    );
    assert_eq!(
        step(InstanceState::Listening { in_flight: 3 }, InstanceEvent::DrainWindowElapsed),
        (InstanceState::Listening { in_flight: 3 }, InstanceAction::Nothing)
    );
}

#[test]
fn a_second_shutdown_changes_nothing() {
    for state in sample_states() {
        let (once, _) = step(state, InstanceEvent::ShutdownRequested);
        assert_eq!(
            step(once, InstanceEvent::ShutdownRequested),
            (once, InstanceAction::Nothing),
            "from {:?}",
            state
        );
    }
}

#[test]
fn ended_instances_stay_as_they_ended() {
    for state in [InstanceState::Stopped, InstanceState::FailedStartup] {
        for event in EVENTS {
            let (next, action) = step(state, event);
            assert_eq!(next, state);
            let expected = if event == InstanceEvent::RequestArrived {
                InstanceAction::Refuse
            } else {
                InstanceAction::Nothing
            };
            assert_eq!(action, expected);
        }
    }
}

#[test]
fn no_event_takes_an_instance_back() {
    for state in sample_states() {
        for event in EVENTS {
            let (next, _) = step(state, event);
            assert!(rank(state) <= rank(next), "{:?} on {:?} gave {:?}", state, event, next);
        }
    }
}

#[test]
fn only_listeners_serve() {
    for state in sample_states() {
        for event in EVENTS {
            let (_, action) = step(state, event);
            if action == InstanceAction::Serve {
                assert!(matches!(state, InstanceState::Listening { .. }));
                assert_eq!(event, InstanceEvent::RequestArrived);
            }
            assert_eq!(
                is_accepting(state),
                step(state, InstanceEvent::RequestArrived).1 == InstanceAction::Serve
            );
        }
    }
}

#[test]
fn after_shutdown_nothing_is_served_whatever_comes() {
    for state in sample_states() {
        let (closed, _) = step(state, InstanceEvent::ShutdownRequested);
        for first in EVENTS {
            for second in EVENTS {
                for third in EVENTS {
                    let mut now = closed;
                    for event in [first, second, third] {
                        let (next, action) = step(now, event);
                        assert_ne!(action, InstanceAction::Serve);
                        assert_ne!(action, InstanceAction::Announce);
                        assert!(!is_accepting(next));
                        now = next;
                    }
                }
            }
        }
    }
}

#[test]
fn serving_a_request_leaves_the_instance_as_it_was() {
    for served in [0u64, 1, 41, u64::MAX - 1] {
        let before = InstanceState::Listening { in_flight: served };
        let (during, first) = step(before, InstanceEvent::RequestArrived);
        let (after, _) = step(during, InstanceEvent::RequestFinished);
        assert_eq!(first, InstanceAction::Serve);
        assert_eq!(after, before);
        assert_eq!(step(after, InstanceEvent::RequestArrived).1, InstanceAction::Serve);
    }
}

#[test]
fn a_whole_life() {
    let mut state = initial_state();
    let events = [
        (InstanceEvent::BindSucceeded, InstanceAction::Announce),
        (InstanceEvent::RequestArrived, InstanceAction::Serve),
        (InstanceEvent::RequestArrived, InstanceAction::Serve),
        (InstanceEvent::RequestFinished, InstanceAction::Nothing),
        (InstanceEvent::ShutdownRequested, InstanceAction::StopAccepting),
        (InstanceEvent::RequestArrived, InstanceAction::Refuse),
        (InstanceEvent::ShutdownRequested, InstanceAction::Nothing),
        (InstanceEvent::RequestFinished, InstanceAction::Release),
        (InstanceEvent::DrainWindowElapsed, InstanceAction::Nothing),
    ];
    for (event, expected) in events {
        let (next, action) = step(state, event);
        assert_eq!(action, expected, "on {:?} in {:?}", event, state);
        state = next;
    }
    assert_eq!(state, InstanceState::Stopped);
}
