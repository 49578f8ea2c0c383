use antikythera::task::{
    AgentTask, ErrorKind, PipelineResult, RetryCondition, TaskExecutionMetadata, TaskResult,
    TaskRetryPolicy,
};
use serde_json::Value;

#[test]
fn tasks_have_random_ids_and_builders() {
    let a = AgentTask::new("do it");
    let b = AgentTask::new("do it");
    assert_ne!(a.task_id, b.task_id);
    let t = AgentTask::new("x")
        .for_agent("agent-1")
        .with_session("s")
        .with_max_steps(4)
        .with_timeout_ms(500)
        .with_budget_steps(9)
        .with_correlation_id("c")
        .with_metadata("k", Value::from(1))
        .with_metadata("k", Value::from(2));
    assert_eq!(t.agent_id.as_deref(), Some("agent-1"));
    assert_eq!(t.max_steps, Some(4));
    assert_eq!(t.metadata.len(), 1);
    assert_eq!(t.metadata[0].1, Value::from(2));
    let p = TaskRetryPolicy::default();
    assert_eq!(p.condition, RetryCondition::default());
}

#[test]
fn results_and_pipelines() {
    let ok1 = TaskResult::success("t1".into(), "a".into(), Value::from("one"), 2, "s".into());
    let bad = TaskResult::failure_with_kind("t2".into(), "a".into(), "boom".into(), ErrorKind::Transient);
    let ok3 = TaskResult::success("t3".into(), "a".into(), Value::from("three"), 5, "s".into());
    assert!(bad.is_transient());
    assert!(!TaskResult::failure("t".into(), "a".into(), "x".into()).is_transient());
    assert!(bad.output.is_null());
    let p = PipelineResult::from_results(vec![ok1, bad, ok3]);
    assert!(!p.success);
    assert_eq!(p.error.as_deref(), Some("boom"));
    assert_eq!(p.total_steps, 7);
    assert_eq!(p.final_output, Value::from("three"));
    let empty = PipelineResult::from_results(Vec::new());
    assert!(empty.success);
    assert!(empty.final_output.is_null());
    let r = TaskResult::success("t".into(), "a".into(), Value::Null, 0, "s".into())
        .with_metadata(TaskExecutionMetadata { timed_out: true, ..Default::default() });
    assert!(r.metadata.timed_out);
}
