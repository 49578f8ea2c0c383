use antikythera::policy::{RetryState, RetryStep, TimeoutPolicy};
use std::time::Duration;

#[test]
fn timeouts_as_durations() {
    let p = TimeoutPolicy::default();
    assert_eq!(p.llm_timeout_ms, 30_000);
    assert_eq!(p.tool_duration(), Duration::from_millis(10_000));
    assert_eq!(p.llm_duration(), Duration::from_secs(30));
}

#[test]
fn retries_stop_at_the_attempt_limit() {
    let mut s = RetryState::new();
    assert_eq!(s.on_failure(3, true), RetryStep::RetryAfter(0));
    assert_eq!(s.on_failure(3, true), RetryStep::RetryAfter(1));
    assert_eq!(s.on_failure(3, true), RetryStep::GiveUp);
    let mut once = RetryState::new();
    assert_eq!(once.on_failure(1, true), RetryStep::GiveUp);
    let mut no = RetryState::new();
    assert_eq!(no.on_failure(5, false), RetryStep::GiveUp);
    assert_eq!(no.failed, 1);
}
