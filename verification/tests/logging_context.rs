use antikythera::logger::LogRegistry;
use antikythera::session_context::SessionContext;

#[test]
fn test_new_with_string_literal() {
    let ctx = SessionContext::new("test-session");
    assert_eq!(ctx.session_id(), "test-session");
}

#[test]
fn test_new_with_string() {
    let ctx = SessionContext::new(&String::from("dynamic-session"));
    assert_eq!(ctx.session_id(), "dynamic-session");
}

#[test]
fn test_default_uses_global_fallback() {
    let reg = LogRegistry::new();
    let ctx = SessionContext::from_active(&reg);
    // The context falls back to the registry's active session, never empty.
    assert!(!ctx.session_id().is_empty());
}

#[test]
fn test_or_active_returns_stored_id() {
    let reg = LogRegistry::new();
    let ctx = SessionContext::new("my-session");
    let result = ctx.or_active(&reg);
    assert_eq!(result, "my-session");
}

#[test]
fn test_or_active_empty_falls_back() {
    let reg = LogRegistry::new();
    let ctx = SessionContext::new("");
    let result = ctx.or_active(&reg);
    // An empty id falls back to the active session.
    assert!(!result.is_empty());
}

#[test]
fn test_into_session_id() {
    let ctx = SessionContext::new("consume-me");
    let owned = ctx.into_session_id();
    assert_eq!(owned, "consume-me");
}

#[test]
fn test_clone_independence() {
    let original = SessionContext::new("original");
    let cloned = original.clone();
    assert_eq!(original.session_id(), cloned.session_id());
}

#[test]
fn or_active_empty_gives_the_active_session() {
    let mut reg = LogRegistry::new();
    assert_eq!(reg.active_session(), "tui");
    reg.set_active_session("cli");
    assert_eq!(SessionContext::new("").or_active(&reg), "cli");
    assert_eq!(SessionContext::from_active(&reg).session_id(), "cli");
}

#[test]
fn duplicate_keeps_the_id() {
    let ctx = SessionContext::new("dup");
    assert_eq!(ctx.duplicate().session_id(), "dup");
}
