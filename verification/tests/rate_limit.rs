use antikythera::logger::LogRegistry;
use antikythera::rate_limit::{RateLimitConfig, RateLimitError, RateLimiter, TimeWindow};

fn small_config() -> RateLimitConfig {
    RateLimitConfig {
        enabled: true,
        requests_per_minute: 2,
        requests_per_hour: 100,
        requests_per_day: 1000,
        burst_allowance: 1,
        max_concurrent_sessions: 2,
        cleanup_interval_secs: 60,
    }
}

#[test]
fn defaults() {
    let c = RateLimitConfig::default();
    assert!(c.enabled);
    assert_eq!(c.requests_per_minute, 60);
    assert_eq!(c.burst_allowance, 10);
}

#[test]
fn window_allows_limit_plus_burst() {
    let mut w = TimeWindow::new(60, 2, 1);
    assert!(w.check(0).is_ok());
    assert!(w.check(1).is_ok());
    assert!(w.check(2).is_ok());
    assert_eq!(
        w.check(3),
        Err(RateLimitError::LimitExceeded { limit: 2, current: 3, window_secs: 60 })
    );
    assert_eq!(w.request_count(), 3);
    // A minute after the first request, it has left the window.
    assert!(w.check(60_000).is_ok());
    w.reset();
    assert_eq!(w.request_count(), 0);
}

#[test]
fn limiter_counts_per_session_and_caps_sessions() {
    let mut reg = LogRegistry::new();
    let mut l = RateLimiter::new(&mut reg, small_config());
    assert!(l.check_at("a", 0).is_ok());
    assert!(l.check_at("a", 10).is_ok());
    assert!(l.check_at("a", 20).is_ok());
    let err = l.check_at("a", 30).unwrap_err();
    assert_eq!(err.to_string(), "Rate limit exceeded: 3/2 requests per 60s");
    assert!(l.check_at("b", 30).is_ok());
    let err = l.check_at("c", 30).unwrap_err();
    assert_eq!(err, RateLimitError::TooManyConcurrentSessions { max: 2, current: 2 });
    assert_eq!(err.to_string(), "Too many concurrent sessions: 2/2");
    assert_eq!(l.active_session_count(), 2);
    let usage = l.get_usage("a").unwrap();
    assert_eq!(usage.requests_per_minute, 3);
    l.remove_session("b");
    assert_eq!(l.active_session_count(), 1);
    assert!(l.get_usage("b").is_none());
}

#[test]
fn disabled_limiter_allows_everything() {
    let mut reg = LogRegistry::new();
    let mut l = RateLimiter::new(&mut reg, RateLimitConfig { enabled: false, ..small_config() });
    for t in 0..10u64 {
        assert!(l.check_at("x", t).is_ok());
    }
}

#[test]
fn reset_and_cleanup() {
    let mut reg = LogRegistry::new();
    let mut l = RateLimiter::new(&mut reg, small_config());
    l.check_at("a", 0).unwrap();
    l.check_at("a", 1).unwrap();
    l.reset_session("a");
    assert_eq!(l.get_usage("a").unwrap().requests_per_minute, 0);
    l.check_at("b", 1_000).unwrap();
    // Sessions inactive for five minutes are dropped.
    l.cleanup_at(300_500);
    assert!(l.get_usage("a").is_none());
    assert!(l.get_usage("b").is_some());
}

#[test]
fn cleanup_now_keeps_recent_sessions() {
    let mut reg = antikythera::logger::LogRegistry::new();
    let mut l = RateLimiter::new(&mut reg, small_config());
    assert!(l.check(&mut reg, "s").is_ok());
    l.cleanup();
    assert!(l.get_usage("s").is_some());
}
