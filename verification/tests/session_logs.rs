use antikythera::log_entries::{LogEntry, LogLevel};
use antikythera::session_logs::{BatchLogExport, SessionLogExport};

fn entry(msg: &str, seq: u64) -> LogEntry {
    LogEntry {
        level: LogLevel::Info,
        message: msg.to_string(),
        timestamp: "2024-01-01T00:00:00Z".to_string(),
        session_id: Some("s".to_string()),
        source: None,
        context: None,
        sequence: seq,
    }
}

#[test]
fn session_export_holds_the_logs() {
    let e = SessionLogExport::from_logs_at("s", vec![entry("a", 0), entry("b", 1)], "now".to_string())
        .with_notes("n");
    assert_eq!(e.session_id, "s");
    assert_eq!(e.log_count(), 2);
    assert_eq!(e.exported_at, "now");
    assert_eq!(e.notes.as_deref(), Some("n"));
    let e = e.check_import().unwrap();
    let logs = e.into_logs();
    assert_eq!(logs[1].message, "b");
}

#[test]
fn batch_export_counts_sessions_and_logs() {
    let a = SessionLogExport::from_logs_at("a", vec![entry("x", 0)], "t".to_string());
    let b = SessionLogExport::from_logs_at("b", vec![entry("y", 0), entry("z", 1)], "t".to_string());
    let batch = BatchLogExport::from_session_logs_at(vec![a, b], "t".to_string()).with_notes("all");
    assert_eq!(batch.session_count(), 2);
    assert_eq!(batch.total_log_count(), 3);
    let batch = batch.check_import().unwrap();
    assert_eq!(batch.into_sessions()[1].session_id, "b");
    let fresh = SessionLogExport::from_logs("c", Vec::new());
    assert!(!fresh.exported_at.is_empty());
}

#[test]
fn imports_are_checked() {
    let mut bad = SessionLogExport::from_logs_at("s", vec![entry("a", 0)], "t".to_string());
    bad.version = 99;
    assert_eq!(bad.check_import().unwrap_err(), "Unsupported export version: 99. Expected: 1");
    let mut other = entry("b", 1);
    other.session_id = Some("other".to_string());
    let mixed = SessionLogExport::from_logs_at("s", vec![entry("a", 0), other], "t".to_string());
    assert_eq!(
        mixed.check_import().unwrap_err(),
        "Session ID mismatch: export has 's', log has 'other'"
    );
}
