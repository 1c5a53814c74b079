use stock_monitor::config::MAX_RECONNECT_ATTEMPTS;
use stock_monitor::supervisor::{run_policy, RunResult, SessionOutcome, Supervisor};

#[test]
fn always_failing_sessions_exhaust_after_exactly_ten_attempts() {
    // More outcomes than the ceiling: the eleventh is never attempted.
    let outcomes = vec![SessionOutcome::FailedEarly; 15];
    let (sessions, waits, attempts, result) = run_policy(&outcomes);
    assert_eq!(sessions, 10);
    assert_eq!(waits, 9);
    assert_eq!(attempts, 10);
    assert_eq!(result, Some(RunResult::Exhausted));
}

#[test]
fn three_failures_then_clean_close_resets_and_ends_cleanly() {
    let outcomes = vec![
        SessionOutcome::FailedEarly,
        SessionOutcome::FailedEarly,
        SessionOutcome::FailedEarly,
        SessionOutcome::CleanClose,
    ];
    let (sessions, waits, attempts, result) = run_policy(&outcomes);
    assert_eq!(sessions, 4);
    assert_eq!(waits, 3);
    assert_eq!(attempts, 0);
    assert_eq!(result, Some(RunResult::Clean));
}

#[test]
fn clean_close_first_stops_at_once() {
    let outcomes = vec![SessionOutcome::CleanClose, SessionOutcome::FailedEarly];
    let (sessions, waits, attempts, result) = run_policy(&outcomes);
    assert_eq!(sessions, 1);
    assert_eq!(waits, 0);
    assert_eq!(attempts, 0);
    assert_eq!(result, Some(RunResult::Clean));
}

#[test]
fn failure_after_subscribe_restarts_the_budget() {
    // Nine early failures, a session that subscribes then fails, and
    // nine more early failures: the reset keeps the run going.
    let mut outcomes = vec![SessionOutcome::FailedEarly; 9];
    outcomes.push(SessionOutcome::FailedAfterSubscribe);
    outcomes.extend(vec![SessionOutcome::FailedEarly; 8]);
    outcomes.push(SessionOutcome::CleanClose);
    let (sessions, _waits, attempts, result) = run_policy(&outcomes);
    assert_eq!(sessions, 19);
    assert_eq!(attempts, 0);
    assert_eq!(result, Some(RunResult::Clean));
}

#[test]
fn step_methods_follow_the_policy() {
    let mut sup = Supervisor::new();
    assert!(sup.should_attempt(true));
    assert!(!sup.should_attempt(false));
    for i in 1..MAX_RECONNECT_ATTEMPTS {
        let retry = sup.note_failure();
        assert!(retry, "attempt {i} should still retry");
        assert_eq!(sup.attempts, i);
    }
    let retry = sup.note_failure();
    assert!(!retry);
    assert!(sup.exhausted());
    assert!(!sup.should_attempt(true));
    sup.note_subscribed();
    assert_eq!(sup.attempts, 0);
    assert!(sup.should_attempt(true));
}
