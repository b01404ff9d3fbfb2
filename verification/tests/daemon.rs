use esprit::daemon::{
    after_session, poll_action, status, watch_start, Decision, Diagnostics, Metrics, Outcome, PollAction, PollResult,
    SessionAction, Supervisor,
};

#[test]
fn counters_start_at_zero_and_count_up() {
    let mut m = Metrics::new();
    assert_eq!((m.restart_count(), m.request_count(), m.error_count()), (0, 0, 0));
    m.record_request();
    m.record_request();
    m.record_error();
    m.record_restart();
    assert_eq!((m.restart_count(), m.request_count(), m.error_count()), (1, 2, 1));
    let h = status(&m);
    assert_eq!(h.status, "healthy");
    assert_eq!(h.restarts, 1);
}

#[test]
fn diagnostics_ignore_warnings() {
    assert!(Diagnostics { warnings: 3, errors: 0 }.healthy());
    assert!(!Diagnostics { warnings: 0, errors: 1 }.healthy());
}

#[test]
fn supervisor_backs_off_exponentially() {
    let s = Supervisor::new(10);
    let mut attempts = 0;
    let mut delays = Vec::new();
    for _ in 0..7 {
        let (n, d) = s.on_outcome(attempts, Outcome::Crashed);
        attempts = n;
        match d {
            Decision::RestartAfter(secs) => delays.push(secs),
            _ => panic!("expected a restart"),
        }
    }
    assert_eq!(delays, vec![2, 4, 8, 16, 32, 32, 32]);
}

#[test]
fn supervisor_gives_up_at_the_limit_and_finishes_on_exit() {
    let s = Supervisor::new(2);
    let (n, d) = s.on_outcome(1, Outcome::Crashed);
    assert_eq!(n, 2);
    assert!(matches!(d, Decision::GiveUp));
    let (n, d) = s.on_outcome(1, Outcome::Exited);
    assert_eq!(n, 1);
    assert!(matches!(d, Decision::Finish));
}

#[test]
fn watch_sessions_react_to_polls() {
    assert!(matches!(poll_action(true, "/r", PollResult::Event), PollAction::Stop));
    assert!(matches!(poll_action(false, "/r", PollResult::Event), PollAction::Deliver));
    assert!(matches!(poll_action(false, "/r", PollResult::TimedOut { root_exists: true }), PollAction::Continue));
    match poll_action(false, "/r", PollResult::TimedOut { root_exists: false }) {
        PollAction::Fail(m) => assert_eq!(m, "watched root disappeared: /r"),
        _ => panic!("expected failure"),
    }
    match poll_action(false, "/r", PollResult::WatcherFailed("boom".to_string())) {
        PollAction::Fail(m) => assert_eq!(m, "filesystem watcher reported an error: boom"),
        _ => panic!("expected failure"),
    }
    match poll_action(false, "/r", PollResult::Disconnected) {
        PollAction::Fail(m) => assert_eq!(m, "filesystem watcher channel disconnected"),
        _ => panic!("expected failure"),
    }
}

#[test]
fn watching_needs_an_existing_root() {
    assert_eq!(watch_start("/r", true), Ok(()));
    assert_eq!(watch_start("/gone", false), Err("watch root does not exist: /gone".to_string()));
    assert!(matches!(after_session(true, false), SessionAction::Finish));
    assert!(matches!(after_session(false, true), SessionAction::Finish));
    assert!(matches!(after_session(false, false), SessionAction::Recover));
}

#[test]
fn crashing_runs_stop_at_the_limit() {
    let s = Supervisor::new(3);
    let mut attempts = 0;
    let mut decisions = Vec::new();
    loop {
        let (n, d) = s.on_outcome(attempts, Outcome::Crashed);
        attempts = n;
        match d {
            Decision::RestartAfter(secs) => decisions.push(secs),
            Decision::GiveUp => break,
            Decision::Finish => panic!("a crash is no exit"),
        }
    }
    assert_eq!(decisions, vec![2, 4]);
    assert_eq!(attempts, 3);
}

#[test]
fn recordings_add_up() {
    let mut m = Metrics::new();
    for _ in 0..1000 {
        m.record_request();
    }
    assert_eq!(m.request_count(), 1000);
    assert_eq!(m.restart_count(), 0);
    assert_eq!(m.error_count(), 0);
}
