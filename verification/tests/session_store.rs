use antikythera::log_entries::{LogFilter, LogLevel};
use antikythera::logger::{LogRegistry, Logger};
use antikythera::runner::AgentRunnerError;
use antikythera::session_store::{SessionStore, DEFAULT_MAX_IN_MEMORY_SESSIONS};

fn ids<S>(v: &[(String, S)]) -> Vec<&str> {
    v.iter().map(|(id, _)| id.as_str()).collect()
}

#[test]
fn sessions_are_created_once() {
    let mut store: SessionStore<u32> = SessionStore::new(DEFAULT_MAX_IN_MEMORY_SESSIONS);
    assert!(store.ensure_session("a", 1, 1_000, 300));
    assert!(!store.ensure_session("a", 2, 2_000, 300));
    assert_eq!(store.len(), 1);
    assert_eq!(store.get("a").unwrap().state, 1);
    assert_eq!(store.get("a").unwrap().last_touched_ms, 1_000);
    assert!(store.get("b").is_none());
    store.touch("a", 5_000);
    assert_eq!(store.get("a").unwrap().last_touched_ms, 5_000);
}

#[test]
fn idle_sweep_archives_expired_sessions() {
    let mut store: SessionStore<&str> = SessionStore::new(10);
    store.ensure_session("fresh", "f", 100_000, 60);
    store.ensure_session("stale", "s", 0, 60);
    store.ensure_session("busy", "b", 0, 60);
    store.ensure_session("forever", "n", 0, 0);
    store.set_pending_llm_chunks("busy", 2);
    // At 100 s, "stale" has been idle 100 s > 60 s.
    let swept = store.sweep_idle_sessions(100_000);
    assert_eq!(ids(&swept), vec!["stale"]);
    assert_eq!(swept[0].1.state, "s");
    assert_eq!(store.len(), 3);
    assert!(!store.contains("stale"));
    assert_eq!(store.archived_record("stale").unwrap().reason, "idle_timeout");
    // Exactly at the timeout a session is not yet idle.
    let swept = store.sweep_sessions(Some(160_000));
    assert!(swept.is_empty());
    let swept = store.sweep_sessions(Some(160_001));
    assert_eq!(ids(&swept), vec!["fresh"]);
}

#[test]
fn archived_session_requires_restore() {
    let mut store: SessionStore<()> = SessionStore::new(10);
    store.ensure_session("s1", (), 0, 300);
    assert!(store.require_in_memory("s1").is_ok());
    assert!(store.require_in_memory("unknown").is_ok());
    let gone = store.archive_session("s1", "manual");
    assert!(gone.is_some());
    assert!(store.archive_session("s1", "manual").is_none());
    match store.require_in_memory("s1") {
        Err(AgentRunnerError::SessionArchived(m)) => {
            assert_eq!(m, "Session 's1' archived and not in RAM")
        }
        other => panic!("expected archived, got {other:?}"),
    }
    // Back in memory, the session can take turns again.
    store.ensure_session("s1", (), 10, 300);
    assert!(store.require_in_memory("s1").is_ok());
}

#[test]
fn archive_at_records_time_and_reason() {
    let mut store: SessionStore<u8> = SessionStore::new(10);
    store.ensure_session("x", 7, 0, 300);
    let slot = store.archive_session_at("x", "because", 42).unwrap();
    assert_eq!(slot.state, 7);
    let rec = store.archived_record("x").unwrap();
    assert_eq!(rec.archived_at_ms, 42);
    assert_eq!(rec.reason, "because");
}

#[test]
fn capacity_pressure_evicts_least_recently_used() {
    let mut store: SessionStore<u8> = SessionStore::new(2);
    store.ensure_session("a", 1, 300, 0);
    store.ensure_session("b", 2, 100, 0);
    store.ensure_session("c", 3, 200, 0);
    store.ensure_session("d", 4, 50, 0);
    store.set_pending_llm_chunks("d", 1);
    let evicted = store.enforce_capacity(Some("b"));
    // "d" is pending and "b" protected: "c" (200) then "a" (300) go.
    assert_eq!(ids(&evicted), vec!["c", "a"]);
    assert_eq!(store.len(), 2);
    assert!(store.contains("b") && store.contains("d"));
    assert_eq!(store.archived_record("a").unwrap().reason, "capacity_pressure");
}

#[test]
fn capacity_pressure_stops_when_nothing_is_evictable() {
    let mut store: SessionStore<u8> = SessionStore::new(1);
    store.ensure_session("a", 1, 0, 0);
    store.ensure_session("b", 2, 0, 0);
    store.set_pending_llm_chunks("a", 3);
    let evicted = store.enforce_capacity(Some("b"));
    assert!(evicted.is_empty());
    assert_eq!(store.len(), 2);
    // Ties go to the session that comes first.
    let mut tied: SessionStore<u8> = SessionStore::new(1);
    tied.ensure_session("x", 1, 5, 0);
    tied.ensure_session("y", 2, 5, 0);
    assert_eq!(ids(&tied.enforce_capacity(None)), vec!["x"]);
}

#[test]
fn zero_capacity_disables_pressure_and_minimum_is_one() {
    let mut store: SessionStore<u8> = SessionStore::new(0);
    store.ensure_session("a", 1, 0, 0);
    store.ensure_session("b", 2, 0, 0);
    assert!(store.enforce_capacity(None).is_empty());
    store.set_max_in_memory_sessions(0);
    assert_eq!(store.max_in_memory_sessions(), 1);
    assert_eq!(store.enforce_capacity(None).len(), 1);
}

#[test]
fn reset_forgets_a_session_and_its_record() {
    let mut store: SessionStore<u8> = SessionStore::new(10);
    store.ensure_session("a", 1, 0, 300);
    store.ensure_session("b", 2, 0, 300);
    store.archive_session("b", "manual");
    assert!(store.reset_session("a"));
    assert!(!store.contains("a"));
    assert!(!store.reset_session("b"));
    assert!(store.archived_record("b").is_none());
    assert!(store.require_in_memory("b").is_ok());
}

#[test]
fn state_of_reports_missing_and_archived_sessions() {
    let mut reg = LogRegistry::new();
    let mut store: SessionStore<u8> = SessionStore::new(10);
    store.ensure_session("live", 9, 0, 300);
    store.ensure_session("old", 3, 0, 300);
    store.archive_session("old", "idle_timeout");
    assert_eq!(*store.state_of(&mut reg, "live").unwrap(), 9);
    match store.state_of(&mut reg, "old") {
        Err(AgentRunnerError::SessionArchived(m)) => {
            assert_eq!(m, "Session 'old' is archived in host storage")
        }
        other => panic!("expected archived, got {other:?}"),
    }
    match store.state_of(&mut reg, "nope") {
        Err(AgentRunnerError::SessionNotFound(m)) => assert_eq!(m, "nope"),
        other => panic!("expected not found, got {other:?}"),
    }
    let logs = Logger::new("old").get_logs(&reg, &LogFilter::new());
    assert_eq!(logs.entries[0].level, LogLevel::Warn);
    assert_eq!(logs.entries[0].message, "get_state called on archived session");
    let logs = Logger::new("nope").get_logs(&reg, &LogFilter::new());
    assert_eq!(logs.entries[0].level, LogLevel::Error);
}
