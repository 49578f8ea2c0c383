use antikythera::clock::{nanos_or_micros, now_rfc3339, now_timestamp_nanos, now_unix_ms};
use antikythera::runner::{AgentRunnerError, SessionIdGenerator};

#[test]
fn test_new_session_id_is_unique() {
    let mut ids = SessionIdGenerator::new();
    let id1 = ids.new_session_id();
    let id2 = ids.new_session_id();
    assert_ne!(id1, id2);
    assert!(id1.starts_with("session-"));
    assert!(id2.starts_with("session-"));
}

#[test]
fn test_now_unix_ms_returns_positive() {
    let ts = now_unix_ms();
    assert!(ts > 0);
}

#[test]
fn test_agent_runner_error_display() {
    let err = AgentRunnerError::SessionNotFound("test-123".to_string());
    assert_eq!(err.to_string(), "Session not found: test-123");

    let err = AgentRunnerError::ToolFailed("bad input".to_string());
    assert_eq!(err.to_string(), "Tool failed: bad input");

    let err = AgentRunnerError::Internal("oops".to_string());
    assert_eq!(err.to_string(), "Internal error: oops");
}

#[test]
fn test_agent_runner_error_from_string() {
    let err: AgentRunnerError = "some error".to_string().into();
    assert!(matches!(err, AgentRunnerError::Internal(_)));
}

#[test]
fn session_ids_have_time_and_counter() {
    let mut ids = SessionIdGenerator::new();
    assert_eq!(ids.session_id_at(1700), "session-1700-0");
    assert_eq!(ids.session_id_at(1700), "session-1700-1");
    assert_eq!(ids.session_id_at(-5), "session--5-2");
}

#[test]
fn other_error_texts() {
    assert_eq!(
        AgentRunnerError::SessionArchived("s".to_string()).to_string(),
        "Session archived: s"
    );
    assert_eq!(
        AgentRunnerError::ValidationFailed("v".to_string()).to_string(),
        "Validation failed: v"
    );
    assert_eq!(
        AgentRunnerError::ConfigurationFailed("c".to_string()).to_string(),
        "Configuration failed: c"
    );
}

#[test]
fn clock_readings() {
    assert!(now_timestamp_nanos() > 0);
    assert_eq!(nanos_or_micros(Some(42), 7), 42);
    assert_eq!(nanos_or_micros(None, 7), 7000);
    let stamp = now_rfc3339();
    assert!(stamp.contains('T'));
}
