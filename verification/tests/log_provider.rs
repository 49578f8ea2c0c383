use antikythera::core_logging::AntikytheraLogProvider;
use antikythera::log_entries::LogFilter;
use antikythera::logger::LogRegistry;

#[test]
fn test_provider_instantiation() {
    let _provider = AntikytheraLogProvider;
}

#[test]
fn test_logger_count_returns_number() {
    let reg = LogRegistry::new();
    let provider = AntikytheraLogProvider;
    let count = provider.logger_count(&reg);
    let _ = count;
}

#[test]
fn test_get_logger_returns_logger() {
    let mut reg = LogRegistry::new();
    let provider = AntikytheraLogProvider;
    let logger = provider.get_logger(&mut reg, "test-session");
    logger.info(&mut reg, "test message");
}

#[test]
fn test_clear_all_loggers_no_panic() {
    let mut reg = LogRegistry::new();
    let provider = AntikytheraLogProvider;
    provider.clear_all_loggers(&mut reg);
}

#[test]
fn provider_counts_and_clears_sessions() {
    let mut reg = LogRegistry::new();
    let provider = AntikytheraLogProvider;
    assert_eq!(provider.logger_count(&reg), 0);
    let a = provider.get_logger(&mut reg, "a");
    provider.get_logger(&mut reg, "b");
    provider.get_logger(&mut reg, "a");
    assert_eq!(provider.logger_count(&reg), 2);
    a.warn(&mut reg, "w1");
    a.info(&mut reg, "i1");
    let found = provider.query_logs(&mut reg, "a", &LogFilter::new());
    assert_eq!(found.len(), 2);
    assert_eq!(found[0].message, "w1");
    let latest = provider.get_latest_logs(&mut reg, "a", 1);
    assert_eq!(latest.len(), 1);
    assert_eq!(latest[0].message, "i1");
    provider.clear_all_loggers(&mut reg);
    assert_eq!(provider.logger_count(&reg), 0);
}
