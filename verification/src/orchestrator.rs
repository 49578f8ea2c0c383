//! Options, guardrails and monitoring of the multi-agent orchestrator.
use vstd::prelude::*;
use crate::log_entries::LogLevel;
use crate::logger::{lemma_with_buffer_then_logged, LogRegistry};
use crate::sdk_logging::get_sdk_logger;
use crate::task::{AgentTask, RetryCondition, TaskRetryPolicy};

verus! {

/// Default retry condition for tasks that set no retry policy.
#[derive(Debug, Clone, Copy, PartialEq, Eq, Structural, Default)]
pub enum RetryConditionOption {
    #[default]
    Always,
    OnTransient,
    Never,
}

/// The task retry condition an option stands for.
pub open spec fn condition_of(o: RetryConditionOption) -> RetryCondition {
    match o {
        RetryConditionOption::Always => RetryCondition::Always,
        RetryConditionOption::OnTransient => RetryCondition::OnTransient,
        RetryConditionOption::Never => RetryCondition::Never,
    }
}

impl From<RetryConditionOption> for RetryCondition {
    fn from(value: RetryConditionOption) -> (c: RetryCondition)
        ensures
            c == condition_of(value),
    {
        match value {
            RetryConditionOption::Always => RetryCondition::Always,
            RetryConditionOption::OnTransient => RetryCondition::OnTransient,
            RetryConditionOption::Never => RetryCondition::Never,
        }
    }
}

impl vstd::std_specs::convert::FromSpecImpl<RetryConditionOption> for RetryCondition {
    open spec fn obeys_from_spec() -> bool {
        true
    }

    open spec fn from_spec(v: RetryConditionOption) -> RetryCondition {
        condition_of(v)
    }
}

/// Timeout guardrail.
#[derive(Debug, Clone, Copy, PartialEq, Eq, Structural, Default)]
pub struct TimeoutGuardrailOptions {
    pub max_timeout_ms: Option<u64>,
    pub require_explicit_timeout: bool,
}

/// Step budget guardrail.
#[derive(Debug, Clone, Copy, PartialEq, Eq, Structural, Default)]
pub struct BudgetGuardrailOptions {
    pub max_task_steps: Option<usize>,
    pub require_explicit_budget: bool,
    pub allow_exhausted_orchestrator: bool,
}

/// Task rate guardrail.
#[derive(Debug, Clone, Copy, PartialEq, Eq, Structural, Default)]
pub struct RateLimitGuardrailOptions {
    pub max_tasks: Option<usize>,
    pub window_ms: Option<u64>,
}

/// The guardrail chain of the orchestrator.
#[derive(Debug, Clone, Copy, PartialEq, Eq, Structural, Default)]
pub struct GuardrailOptions {
    pub timeout: Option<TimeoutGuardrailOptions>,
    pub budget: Option<BudgetGuardrailOptions>,
    pub rate_limit: Option<RateLimitGuardrailOptions>,
    pub cancellation: bool,
}

impl GuardrailOptions {
    /// Whether no guardrail is configured.
    pub fn is_empty(&self) -> (r: bool)
        ensures
            r == (self.timeout is None && self.budget is None && self.rate_limit is None
                && !self.cancellation),
    {
        self.timeout.is_none() && self.budget.is_none() && self.rate_limit.is_none()
            && !self.cancellation
    }
}

/// Orchestrator configuration.
#[derive(Debug, Clone, Copy, PartialEq, Eq, Structural, Default)]
pub struct OrchestratorOptions {
    /// Most tasks running at once (`None`: unlimited).
    pub max_concurrent_tasks: Option<usize>,
    /// Step budget over all tasks of a session (`None`: unlimited).
    pub max_total_steps: Option<usize>,
    /// Most tasks dispatched in a session (`None`: unlimited).
    pub max_total_tasks: Option<usize>,
    /// Retry condition for tasks without a retry policy.
    pub default_retry_condition: RetryConditionOption,
    pub guardrails: GuardrailOptions,
}

impl OrchestratorOptions {
    /// The retry policy given to tasks that have none: no retries, no
    /// back-off, and the configured condition.
    pub fn default_task_retry_policy(&self) -> (p: TaskRetryPolicy)
        ensures
            p.max_retries == 0,
            p.backoff_ms == 0,
            p.condition == condition_of(self.default_retry_condition),
    {
        TaskRetryPolicy {
            max_retries: 0,
            backoff_ms: 0,
            condition: RetryCondition::from(self.default_retry_condition),
        }
    }

    /// Gives `task` the default retry policy when it has none.
    pub fn apply_to_task(&self, task: &mut AgentTask)
        ensures
            old(task).retry_policy is Some ==> *final(task) == *old(task),
            old(task).retry_policy is None ==> final(task).retry_policy == Some(
                TaskRetryPolicy {
                    max_retries: 0,
                    backoff_ms: 0,
                    condition: condition_of(self.default_retry_condition),
                },
            ) && *final(task) == (AgentTask { retry_policy: final(task).retry_policy, ..*old(task) }),
    {
        if task.retry_policy.is_none() {
            task.retry_policy = Some(self.default_task_retry_policy());
        }
    }
}

/// Live consumption and limits of the orchestrator.
#[derive(Debug, Clone, Copy, PartialEq, Eq, Structural, Default)]
pub struct OrchestratorMonitorSnapshot {
    pub consumed_steps: usize,
    pub dispatched_tasks: usize,
    pub max_total_steps: Option<usize>,
    pub max_total_tasks: Option<usize>,
    pub max_concurrent_tasks: Option<usize>,
    pub step_budget_exhausted: bool,
    pub task_budget_exhausted: bool,
    pub cancelled: bool,
}

impl OrchestratorMonitorSnapshot {
    /// The snapshot with the live cancellation state.
    pub fn with_cancelled(self, cancelled: bool) -> (s: OrchestratorMonitorSnapshot)
        ensures
            s == (OrchestratorMonitorSnapshot { cancelled, ..self }),
    {
        OrchestratorMonitorSnapshot { cancelled, ..self }
    }
}

/// Result details of one dispatched task.
#[derive(Debug, Clone, Default)]
pub struct TaskResultDetail {
    pub error_kind: Option<String>,
    pub is_transient: bool,
    pub router_name: Option<String>,
    pub selected_agent_id: Option<String>,
    pub candidates_considered: Option<usize>,
    pub routing_reason: Option<String>,
    pub concurrency_wait_ms: u64,
    pub budget_exhausted: bool,
    pub guardrail_name: Option<String>,
    pub guardrail_stage: Option<String>,
}

/// Budget consumption recorded by the orchestrator.
#[derive(Debug, Clone, Copy, PartialEq, Eq, Structural, Default)]
pub struct BudgetSnapshot {
    pub consumed_steps: usize,
    pub dispatched_tasks: usize,
    pub max_total_steps: Option<usize>,
    pub max_total_tasks: Option<usize>,
    pub step_budget_exhausted: bool,
    pub task_budget_exhausted: bool,
}

/// Runtime state of the orchestrator hardening layer.
#[derive(Debug, Clone, Copy, PartialEq, Eq, Structural, Default)]
pub struct OrchestratorContext {
    pub options: OrchestratorOptions,
    pub cancelled: bool,
    pub last_budget_snapshot: Option<BudgetSnapshot>,
}

impl OrchestratorContext {
    /// A context with the given options, not cancelled, without a snapshot.
    pub fn new(options: OrchestratorOptions) -> (c: OrchestratorContext)
        ensures
            c.options == options,
            !c.cancelled,
            c.last_budget_snapshot is None,
    {
        OrchestratorContext { options, cancelled: false, last_budget_snapshot: None }
    }

    /// Records the operation in the SDK log of session `tui` (debug, source
    /// `orchestrator`), then runs `f` on the context and returns its result.
    pub fn with<T, F: FnOnce(&mut OrchestratorContext) -> Result<T, String>>(
        &mut self,
        reg: &mut LogRegistry,
        f: F,
    ) -> (r: Result<T, String>)
        requires
            old(reg).wf(),
            forall|c: &mut OrchestratorContext| *c == *old(self) ==> f.requires((c,)),
        ensures
            final(reg).wf(),
            exists|ts: Seq<char>|
                final(reg)@ == old(reg)@.logged(
                    "tui"@,
                    LogLevel::Debug,
                    "Orchestrator operation"@,
                    Some("orchestrator"@),
                    None,
                    ts,
                ),
    {
        let ghost start = reg@;
        let logger = get_sdk_logger(reg, "tui");
        let ghost mid = reg@;
        logger.log_with_source(reg, LogLevel::Debug, "orchestrator", "Orchestrator operation");
        proof {
            let ts = choose|ts: Seq<char>|
                reg@ == mid.logged(
                    "tui"@,
                    LogLevel::Debug,
                    "Orchestrator operation"@,
                    Some("orchestrator"@),
                    None,
                    ts,
                );
            lemma_with_buffer_then_logged(
                start,
                "tui"@,
                LogLevel::Debug,
                "Orchestrator operation"@,
                Some("orchestrator"@),
                None,
                ts,
            );
        }
        f(self)
    }
}

} // verus!
