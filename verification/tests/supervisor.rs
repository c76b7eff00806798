use echo_supervisor::supervisor::{Action, Event, Phase, Supervisor};

const EVENTS: [Event; 7] = [
    Event::Accepted,
    Event::AcceptFailed,
    Event::Registered,
    Event::Cancelled,
    Event::ListenerReleased,
    Event::CleanupStopped,
    Event::Drained,
];

fn supervisor_after(events: &[Event]) -> Supervisor {
    let mut s = Supervisor::new();
    for e in events {
        s.step(*e);
    }
    s
}

#[test]
fn supervisor_starts_by_listening() {
    let s = Supervisor::new();
    assert_eq!(s.phase(), Phase::Listening);
    assert_eq!(s.pending(), Action::Listen);
    assert!(!s.is_shutting_down());
}

#[test]
fn accepted_connection_is_registered_then_listening_resumes() {
    let mut s = Supervisor::new();
    assert_eq!(s.step(Event::Accepted), Action::Register);
    assert_eq!(s.phase(), Phase::Registering);
    assert_eq!(s.step(Event::Registered), Action::Listen);
    assert_eq!(s.phase(), Phase::Listening);
    assert_eq!(s.step(Event::Accepted), Action::Register);
    assert_eq!(s.step(Event::Registered), Action::Listen);
}

#[test]
fn failed_accept_does_not_stop_the_server() {
    let mut s = Supervisor::new();
    for _ in 0..3 {
        assert_eq!(s.step(Event::AcceptFailed), Action::Listen);
        assert_eq!(s.phase(), Phase::Listening);
    }
    assert_eq!(s.step(Event::Accepted), Action::Register);
}

#[test]
fn shutdown_runs_in_order() {
    let mut s = Supervisor::new();
    assert_eq!(s.step(Event::Cancelled), Action::ReleaseListener);
    assert_eq!(s.phase(), Phase::Releasing);
    assert!(s.is_shutting_down());
    assert_eq!(s.step(Event::ListenerReleased), Action::AwaitCleanup);
    assert_eq!(s.phase(), Phase::StoppingCleanup);
    assert_eq!(s.step(Event::CleanupStopped), Action::Drain);
    assert_eq!(s.phase(), Phase::Draining);
    assert_eq!(s.step(Event::Drained), Action::Exit);
    assert_eq!(s.phase(), Phase::Done);
    assert_eq!(s.pending(), Action::Exit);
}

#[test]
fn shutdown_steps_cannot_be_skipped() {
    let mut s = supervisor_after(&[Event::Cancelled]);
    assert_eq!(s.step(Event::Drained), Action::ReleaseListener);
    assert_eq!(s.step(Event::CleanupStopped), Action::ReleaseListener);
    assert_eq!(s.step(Event::ListenerReleased), Action::AwaitCleanup);
    assert_eq!(s.step(Event::Drained), Action::AwaitCleanup);
    assert_eq!(s.step(Event::ListenerReleased), Action::AwaitCleanup);
    assert_eq!(s.step(Event::CleanupStopped), Action::Drain);
    assert_eq!(s.step(Event::CleanupStopped), Action::Drain);
    assert_eq!(s.step(Event::Drained), Action::Exit);
}

#[test]
fn shutdown_events_mean_nothing_before_cancellation() {
    let mut s = Supervisor::new();
    for e in [Event::ListenerReleased, Event::CleanupStopped, Event::Drained, Event::Registered] {
        assert_eq!(s.step(e), Action::Listen);
        assert_eq!(s.phase(), Phase::Listening);
    }
}

#[test]
fn nothing_is_accepted_after_cancellation() {
    let shutdown = [Event::Cancelled, Event::ListenerReleased, Event::CleanupStopped, Event::Drained];
    for done in 1..=shutdown.len() {
        for first in EVENTS {
            for second in EVENTS {
                let mut s = supervisor_after(&shutdown[..done]);
                for e in [first, second] {
                    let action = s.step(e);
                    assert_ne!(action, Action::Listen);
                    assert_ne!(action, Action::Register);
                    assert!(s.is_shutting_down());
                }
            }
        }
    }
}

#[test]
fn cancellation_while_registering_waits_for_the_registration() {
    let mut s = supervisor_after(&[Event::Accepted]);
    assert_eq!(s.step(Event::Cancelled), Action::Register);
    assert_eq!(s.step(Event::Registered), Action::Listen);
    assert_eq!(s.step(Event::Cancelled), Action::ReleaseListener);
}

#[test]
fn second_cancellation_changes_nothing() {
    let histories: [&[Event]; 5] = [
        &[],
        &[Event::Cancelled],
        &[Event::Cancelled, Event::ListenerReleased],
        &[Event::Cancelled, Event::ListenerReleased, Event::CleanupStopped],
        &[Event::Cancelled, Event::ListenerReleased, Event::CleanupStopped, Event::Drained],
    ];
    for history in histories {
        let mut once = supervisor_after(history);
        let mut twice = supervisor_after(history);
        let a = once.step(Event::Cancelled);
        twice.step(Event::Cancelled);
        let b = twice.step(Event::Cancelled);
        assert_eq!(a, b);
        assert_eq!(once.phase(), twice.phase());
    }
}

#[test]
fn done_supervisor_only_exits() {
    let mut s = supervisor_after(&[
        Event::Cancelled,
        Event::ListenerReleased,
        Event::CleanupStopped,
        Event::Drained,
    ]);
    for e in EVENTS {
        assert_eq!(s.step(e), Action::Exit);
        assert_eq!(s.phase(), Phase::Done);
    }
}
