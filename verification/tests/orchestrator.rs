use antikythera::logger::LogRegistry;
use antikythera::orchestrator::{
    GuardrailOptions, OrchestratorContext, OrchestratorMonitorSnapshot, OrchestratorOptions,
    RetryConditionOption,
};
use antikythera::task::{AgentTask, RetryCondition};

#[test]
fn default_retry_policy_is_applied_to_tasks_without_one() {
    let options = OrchestratorOptions {
        default_retry_condition: RetryConditionOption::Never,
        ..Default::default()
    };
    let p = options.default_task_retry_policy();
    assert_eq!(p.max_retries, 0);
    assert_eq!(p.condition, RetryCondition::Never);
    let mut task = AgentTask::new("x");
    options.apply_to_task(&mut task);
    assert_eq!(task.retry_policy.unwrap().condition, RetryCondition::Never);
    assert!(GuardrailOptions::default().is_empty());
}

#[test]
fn context_runs_operations_and_logs_them() {
    let mut reg = LogRegistry::new();
    let mut ctx = OrchestratorContext::new(OrchestratorOptions::default());
    let r = ctx.with(&mut reg, |c| {
        c.cancelled = true;
        Ok(5)
    });
    assert_eq!(r, Ok(5));
    assert!(ctx.cancelled);
    assert_eq!(reg.len_of("tui"), 1);
    let snap = OrchestratorMonitorSnapshot::default().with_cancelled(true);
    assert!(snap.cancelled);
}
