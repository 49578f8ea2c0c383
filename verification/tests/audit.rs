use antikythera::audit::{AuditCategory, AuditRecord, AuditSink, AuditTrail};

#[test]
fn records_keep_their_details() {
    let r = AuditRecord::new_at(AuditCategory::ToolExecution, "run", true, Some("c1".to_string()), 42)
        .with_detail("tool", "search")
        .with_detail("tool", "fetch")
        .with_detail("ms", "12");
    assert_eq!(r.timestamp_ms, 42);
    assert_eq!(r.details.len(), 2);
    assert!(r.details.contains(&("tool".to_string(), "fetch".to_string())));
    let copy = r.duplicate();
    assert_eq!(copy.action, "run");
    assert_eq!(copy.details, r.details);
}

#[test]
fn trail_filters_by_category_and_clears() {
    let mut trail = AuditTrail::new();
    trail.append(AuditRecord::new(AuditCategory::PolicyDecision, "allow", true, None));
    trail.append(AuditRecord::new(AuditCategory::ModelRequest, "chat", true, None));
    trail.record_event(
        "tool_execution",
        "exec",
        false,
        vec![("a".to_string(), "1".to_string()), ("a".to_string(), "2".to_string())],
    );
    trail.record_event("unknown", "other", true, Vec::new());
    assert_eq!(trail.snapshot().len(), 4);
    let tools = trail.by_category(AuditCategory::ToolExecution);
    assert_eq!(tools.len(), 1);
    assert_eq!(tools[0].details, vec![("a".to_string(), "2".to_string())]);
    assert_eq!(trail.by_category(AuditCategory::PolicyDecision).len(), 2);
    let sink: &mut dyn AuditSink = &mut trail;
    sink.record_event("model_request", "m", true, Vec::new());
    assert_eq!(trail.by_category(AuditCategory::ModelRequest).len(), 2);
    trail.clear();
    assert!(trail.snapshot().is_empty());
}
