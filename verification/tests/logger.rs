use antikythera::log_entries::{LogFilter, LogLevel};
use antikythera::logger::{LogRegistry, Logger};

#[test]
fn logger_new_stores_session_id() {
    let logger = Logger::new("test-session");
    assert_eq!(logger.session_id(), "test-session");
}

#[test]
fn logger_log_levels_record_correctly() {
    let mut reg = LogRegistry::new();
    let logger = Logger::new("test");
    logger.debug(&mut reg, "debug msg");
    logger.info(&mut reg, "info msg");
    logger.warn(&mut reg, "warn msg");
    logger.error(&mut reg, "error msg");

    let logs = logger.get_logs(&reg, &LogFilter::new());
    assert_eq!(logs.total_count, 4);
    assert_eq!(logs.entries[0].level, LogLevel::Debug);
    assert_eq!(logs.entries[1].level, LogLevel::Info);
    assert_eq!(logs.entries[2].level, LogLevel::Warn);
    assert_eq!(logs.entries[3].level, LogLevel::Error);
}

#[test]
fn log_buffer_evicts_oldest_on_overflow() {
    let mut reg = LogRegistry::new();
    let logger = Logger::with_capacity(&mut reg, "test", 3);
    logger.info(&mut reg, "a");
    logger.info(&mut reg, "b");
    logger.info(&mut reg, "c");
    logger.info(&mut reg, "d");

    let logs = logger.get_logs(&reg, &LogFilter::new());
    assert_eq!(logs.total_count, 3);
    assert_eq!(logs.entries[0].message, "b");
    assert_eq!(logs.entries[1].message, "c");
    assert_eq!(logs.entries[2].message, "d");
}

#[test]
fn log_filter_by_level() {
    let mut reg = LogRegistry::new();
    let logger = Logger::new("test");
    logger.debug(&mut reg, "debug");
    logger.info(&mut reg, "info");
    logger.error(&mut reg, "error");

    let filter = LogFilter::new().min_level(LogLevel::Warn);
    let logs = logger.get_logs(&reg, &filter);
    assert_eq!(logs.total_count, 1);
    assert_eq!(logs.entries[0].level, LogLevel::Error);
}

#[test]
fn log_filter_pagination() {
    let mut reg = LogRegistry::new();
    let logger = Logger::new("test");
    for i in 0..10 {
        logger.info(&mut reg, &format!("msg-{i}"));
    }

    let filter = LogFilter::new().offset(3).limit(2);
    let batch = logger.get_logs(&reg, &filter);
    assert_eq!(batch.entries.len(), 2);
    assert_eq!(batch.entries[0].message, "msg-3");
    assert_eq!(batch.entries[1].message, "msg-4");
    assert!(batch.has_more);
}

#[test]
fn logger_clone_shares_buffer() {
    let mut reg = LogRegistry::new();
    let logger = Logger::new("test");
    let clone = logger.clone();

    logger.info(&mut reg, "from-original");
    clone.info(&mut reg, "from-clone");

    let logs = logger.get_logs(&reg, &LogFilter::new());
    assert_eq!(logs.total_count, 2);
}

#[test]
fn log_with_source_and_context() {
    let mut reg = LogRegistry::new();
    let logger = Logger::new("test");
    logger.log_with_source(&mut reg, LogLevel::Info, "agent", "agent started");
    logger.log_with_context(&mut reg, LogLevel::Debug, "processing", "{\"step\": 1}");

    let logs = logger.get_logs(&reg, &LogFilter::new());
    assert_eq!(logs.total_count, 2);
    assert_eq!(logs.entries[0].source.as_deref(), Some("agent"));
    assert_eq!(logs.entries[1].context.as_deref(), Some("{\"step\": 1}"));
}

#[test]
fn log_level_from_str() {
    assert_eq!("debug".parse::<LogLevel>().unwrap(), LogLevel::Debug);
    assert_eq!("INFO".parse::<LogLevel>().unwrap(), LogLevel::Info);
    assert_eq!("Warn".parse::<LogLevel>().unwrap(), LogLevel::Warn);
    assert_eq!("ERROR".parse::<LogLevel>().unwrap(), LogLevel::Error);
}

#[test]
fn log_buffer_clear() {
    let mut reg = LogRegistry::new();
    let logger = Logger::new("test");
    logger.info(&mut reg, "a");
    logger.info(&mut reg, "b");
    assert_eq!(logger.len(&reg), 2);

    logger.clear(&mut reg);
    assert_eq!(logger.len(&reg), 0);
    assert!(logger.is_empty(&reg));
}

#[test]
fn unknown_level_name_is_rejected() {
    assert_eq!(
        "verbose".parse::<LogLevel>().unwrap_err(),
        "Invalid log level: verbose"
    );
    assert_eq!(LogLevel::parse("wArN"), Some(LogLevel::Warn));
    assert_eq!(LogLevel::Warn.as_str(), "warn");
    assert!(LogLevel::Debug.rank() < LogLevel::Error.rank());
}

#[test]
fn entries_carry_session_sequence_and_timestamp() {
    let mut reg = LogRegistry::new();
    let logger = Logger::new("seq");
    logger.info(&mut reg, "one");
    logger.info(&mut reg, "two");
    let logs = logger.get_logs(&reg, &LogFilter::new());
    assert_eq!(logs.entries[0].session_id.as_deref(), Some("seq"));
    assert!(logs.entries[0].sequence < logs.entries[1].sequence);
    assert!(!logs.entries[0].timestamp.is_empty());
    let latest = logger.get_latest(&reg, 1);
    assert_eq!(latest.len(), 1);
    assert_eq!(latest[0].message, "two");
}

#[test]
fn sessions_do_not_see_each_other() {
    let mut reg = LogRegistry::new();
    let a = Logger::new("a");
    let b = Logger::new("b");
    a.info(&mut reg, "for a");
    assert_eq!(a.len(&reg), 1);
    assert_eq!(b.len(&reg), 0);
    let filtered = a.get_logs(&reg, &LogFilter::new().source("nobody"));
    assert_eq!(filtered.total_count, 0);
}
