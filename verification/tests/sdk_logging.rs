use antikythera::log_entries::LogFilter;
use antikythera::logger::LogRegistry;
use antikythera::sdk_logging::{
    clear_sdk_loggers, clear_sdk_session_logs, get_latest_sdk_logs, get_sdk_logger, query_sdk_logs,
    sdk_logs_for_json, ConfigFfiLogger,
};

#[test]
fn get_sdk_logger_returns_logger_for_session() {
    let mut reg = LogRegistry::new();
    let logger = get_sdk_logger(&mut reg, "unique-test-session-1");
    assert_eq!(logger.session_id(), "unique-test-session-1");
}

#[test]
fn get_sdk_logger_returns_same_instance_for_same_id() {
    let mut reg = LogRegistry::new();
    let a = get_sdk_logger(&mut reg, "unique-test-session-2");
    let b = get_sdk_logger(&mut reg, "unique-test-session-2");
    // Both handles name the same buffer: a write through one is read through the other.
    assert!(a == b);
    a.info(&mut reg, "shared");
    assert_eq!(b.len(&reg), 1);
}

#[test]
fn clear_sdk_loggers_removes_all() {
    let mut reg = LogRegistry::new();
    get_sdk_logger(&mut reg, "unique-s1");
    get_sdk_logger(&mut reg, "unique-s2");
    clear_sdk_loggers(&mut reg);
    let batch = query_sdk_logs(&reg, "unique-s1", &LogFilter::new());
    assert_eq!(batch.total_count, 0);
}

#[test]
fn query_nonexistent_session_returns_empty() {
    let reg = LogRegistry::new();
    let batch = query_sdk_logs(&reg, "nonexistent-session-xyz", &LogFilter::new());
    assert_eq!(batch.total_count, 0);
    assert!(batch.entries.is_empty());
}

#[test]
fn config_ffi_logger_logs_without_panic() {
    let mut reg = LogRegistry::new();
    let logger = ConfigFfiLogger::new(&mut reg, "unique-ffi-test");
    logger.ffi_call(&mut reg, "test_fn", "{}");
    logger.ffi_result(&mut reg, "test_fn", true, 100);
    logger.ffi_error(&mut reg, "test_fn", "err");
    logger.config_loaded(&mut reg, "file", 1024);
    logger.config_saved(&mut reg, "/path", 512);
    logger.provider_added(&mut reg, "openai");
    logger.provider_removed(&mut reg, "openai");
    logger.prompt_updated(&mut reg, "system");
    logger.agent_config_changed(&mut reg, "model", "gpt-4");
    let batch = query_sdk_logs(&reg, "unique-ffi-test", &LogFilter::new());
    assert!(batch.total_count > 0);
}

#[test]
fn sdk_session_queries_and_clearing() {
    let mut reg = LogRegistry::new();
    assert!(sdk_logs_for_json(&reg, "absent", &LogFilter::new()).is_none());
    let l = get_sdk_logger(&mut reg, "s");
    l.info(&mut reg, "first");
    l.error(&mut reg, "second");
    let json_batch = sdk_logs_for_json(&reg, "s", &LogFilter::new()).unwrap();
    assert_eq!(json_batch.total_count, 2);
    let latest = get_latest_sdk_logs(&reg, "s", 1);
    assert_eq!(latest[0].message, "second");
    clear_sdk_session_logs(&mut reg, "s");
    assert_eq!(l.len(&reg), 0);
    // Clearing an unknown session creates nothing.
    clear_sdk_session_logs(&mut reg, "unknown");
    assert_eq!(reg.logger_count(), 1);
}
