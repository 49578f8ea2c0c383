//! Tasks dispatched to agents, their retry policies, and their results.
use vstd::prelude::*;
use serde_json::Value;
use crate::json_value::{json_is_null, json_null};
use crate::log_entries::opt_view;
use crate::text::{copy_opt_string, str_eq, string_of};

verus! {

/// When a failed task is retried.
#[derive(Debug, Clone, Copy, PartialEq, Eq, Structural)]
pub enum RetryCondition {
    Always,
    OnTransient,
    Never,
}

impl Default for RetryCondition {
    fn default() -> (c: RetryCondition)
        ensures
            c == RetryCondition::Always,
    {
        RetryCondition::Always
    }
}

/// Kind of a task failure.
#[derive(Debug, Clone, Copy, PartialEq, Eq, Structural)]
pub enum ErrorKind {
    Transient,
    Permanent,
    Cancelled,
    DeadlineExceeded,
    BudgetExhausted,
}

/// How a router chose the agent of a task.
#[derive(Debug, Clone)]
pub struct RoutingDecision {
    pub router_name: String,
    pub selected_agent_id: String,
    pub candidates_considered: usize,
    pub reason: Option<String>,
}

impl Default for RoutingDecision {
    fn default() -> (d: RoutingDecision)
        ensures
            d.router_name@.len() == 0,
            d.selected_agent_id@.len() == 0,
            d.candidates_considered == 0,
            d.reason is None,
    {
        RoutingDecision {
            router_name: String::new(),
            selected_agent_id: String::new(),
            candidates_considered: 0,
            reason: None,
        }
    }
}

/// Retry policy of one task.
#[derive(Debug, Clone, Copy, PartialEq, Eq, Structural)]
pub struct TaskRetryPolicy {
    pub max_retries: u8,
    pub backoff_ms: u64,
    pub condition: RetryCondition,
}

impl Default for TaskRetryPolicy {
    fn default() -> (p: TaskRetryPolicy)
        ensures
            p.max_retries == 0,
            p.backoff_ms == 0,
            p.condition == RetryCondition::Always,
    {
        TaskRetryPolicy { max_retries: 0, backoff_ms: 0, condition: RetryCondition::Always }
    }
}

/// Execution details of one task.
#[derive(Debug, Clone)]
pub struct TaskExecutionMetadata {
    pub attempt_count: u8,
    pub duration_ms: u64,
    pub timed_out: bool,
    pub deadline_exceeded: bool,
    pub cancelled: bool,
    pub retry_applied: bool,
    pub routed_by: Option<String>,
    pub execution_mode: Option<String>,
    pub correlation_id: Option<String>,
    pub error_kind: Option<ErrorKind>,
    pub routing_decision: Option<RoutingDecision>,
    pub concurrency_wait_ms: u64,
    pub budget_exhausted: bool,
    pub guardrail_name: Option<String>,
    pub guardrail_stage: Option<String>,
}

impl Default for TaskExecutionMetadata {
    fn default() -> (m: TaskExecutionMetadata)
        ensures
            m.attempt_count == 0,
            m.duration_ms == 0,
            !m.timed_out && !m.deadline_exceeded && !m.cancelled && !m.retry_applied,
            m.routed_by is None && m.execution_mode is None && m.correlation_id is None,
            m.error_kind is None && m.routing_decision is None,
            m.concurrency_wait_ms == 0,
            !m.budget_exhausted,
            m.guardrail_name is None && m.guardrail_stage is None,
    {
        TaskExecutionMetadata {
            attempt_count: 0,
            duration_ms: 0,
            timed_out: false,
            deadline_exceeded: false,
            cancelled: false,
            retry_applied: false,
            routed_by: None,
            execution_mode: None,
            correlation_id: None,
            error_kind: None,
            routing_decision: None,
            concurrency_wait_ms: 0,
            budget_exhausted: false,
            guardrail_name: None,
            guardrail_stage: None,
        }
    }
}

/// `uuid::Uuid::new_v4().to_string()`: a fresh random identifier, written
/// in the hyphenated form of 36 characters; which one is random.
#[verifier::external_body]
fn new_uuid_text() -> (r: String)
    ensures
        r@.len() == 36,
{
    uuid::Uuid::new_v4().to_string()
}

/// Position of key `k` in `v`, or -1.
pub open spec fn meta_index(v: Seq<(String, Value)>, k: Seq<char>) -> int
    decreases v.len(),
{
    if v.len() == 0 {
        -1
    } else if v.last().0@ == k {
        v.len() - 1
    } else {
        meta_index(v.drop_last(), k)
    }
}

/// The key/value pairs of `v` as a map.
pub open spec fn meta_map(v: Seq<(String, Value)>) -> Map<Seq<char>, Value> {
    Map::new(|k: Seq<char>| meta_index(v, k) >= 0, |k: Seq<char>| v[meta_index(v, k)].1)
}

proof fn lemma_meta_index(v: Seq<(String, Value)>, k: Seq<char>)
    ensures
        -1 <= meta_index(v, k) < v.len(),
        meta_index(v, k) >= 0 ==> v[meta_index(v, k)].0@ == k,
        meta_index(v, k) == -1 ==> forall|j: int| 0 <= j < v.len() ==> v[j].0@ != k,
    decreases v.len(),
{
    if v.len() > 0 && v.last().0@ != k {
        lemma_meta_index(v.drop_last(), k);
        if meta_index(v, k) == -1 {
            assert forall|j: int| 0 <= j < v.len() implies v[j].0@ != k by {
                if j < v.len() - 1 {
                    assert(v.drop_last()[j] == v[j]);
                }
            }
        }
    }
}

/// A unit of work for an agent.
#[derive(Debug, Clone)]
pub struct AgentTask {
    pub task_id: String,
    pub agent_id: Option<String>,
    pub input: String,
    pub session_id: Option<String>,
    pub max_steps: Option<usize>,
    pub timeout_ms: Option<u64>,
    pub deadline_unix_ms: Option<i64>,
    pub retry_policy: Option<TaskRetryPolicy>,
    pub budget_steps: Option<usize>,
    pub correlation_id: Option<String>,
    /// Free-form metadata, one value per key.
    pub metadata: Vec<(String, Value)>,
}

impl AgentTask {
    /// A task with a fresh random id and nothing else set.
    pub fn new(input: &str) -> (t: AgentTask)
        ensures
            t.input@ == input@,
            t.agent_id is None && t.session_id is None && t.max_steps is None,
            t.timeout_ms is None && t.deadline_unix_ms is None && t.retry_policy is None,
            t.budget_steps is None && t.correlation_id is None,
            t.metadata@.len() == 0,
            t.task_id@.len() == 36,
    {
        AgentTask {
            task_id: new_uuid_text(),
            agent_id: None,
            input: string_of(input),
            session_id: None,
            max_steps: None,
            timeout_ms: None,
            deadline_unix_ms: None,
            retry_policy: None,
            budget_steps: None,
            correlation_id: None,
            metadata: Vec::new(),
        }
    }

    pub fn for_agent(self, agent_id: &str) -> (t: AgentTask)
        ensures
            opt_view(t.agent_id) == Some(agent_id@),
            t == (AgentTask { agent_id: t.agent_id, ..self }),
    {
        AgentTask { agent_id: Some(string_of(agent_id)), ..self }
    }

    pub fn with_session(self, session_id: &str) -> (t: AgentTask)
        ensures
            opt_view(t.session_id) == Some(session_id@),
            t == (AgentTask { session_id: t.session_id, ..self }),
    {
        AgentTask { session_id: Some(string_of(session_id)), ..self }
    }

    pub fn with_max_steps(self, max_steps: usize) -> (t: AgentTask)
        ensures
            t == (AgentTask { max_steps: Some(max_steps), ..self }),
    {
        AgentTask { max_steps: Some(max_steps), ..self }
    }

    pub fn with_timeout_ms(self, timeout_ms: u64) -> (t: AgentTask)
        ensures
            t == (AgentTask { timeout_ms: Some(timeout_ms), ..self }),
    {
        AgentTask { timeout_ms: Some(timeout_ms), ..self }
    }

    pub fn with_retry_policy(self, retry_policy: TaskRetryPolicy) -> (t: AgentTask)
        ensures
            t == (AgentTask { retry_policy: Some(retry_policy), ..self }),
    {
        AgentTask { retry_policy: Some(retry_policy), ..self }
    }

    pub fn with_budget_steps(self, budget_steps: usize) -> (t: AgentTask)
        ensures
            t == (AgentTask { budget_steps: Some(budget_steps), ..self }),
    {
        AgentTask { budget_steps: Some(budget_steps), ..self }
    }

    pub fn with_correlation_id(self, correlation_id: &str) -> (t: AgentTask)
        ensures
            opt_view(t.correlation_id) == Some(correlation_id@),
            t == (AgentTask { correlation_id: t.correlation_id, ..self }),
    {
        AgentTask { correlation_id: Some(string_of(correlation_id)), ..self }
    }

    /// The task with metadata `key` set to `value`, replacing an earlier
    /// value of that key.
    pub fn with_metadata(self, key: &str, value: Value) -> (t: AgentTask)
        ensures
            meta_map(t.metadata@) == meta_map(self.metadata@).insert(key@, value),
            t == (AgentTask { metadata: t.metadata, ..self }),
    {
        let mut task = self;
        let ghost old_v = task.metadata@;
        let mut i: usize = task.metadata.len();
        let mut found: Option<usize> = None;
        assert(old_v.take(old_v.len() as int) =~= old_v);
        while i > 0 && found.is_none()
            invariant
                i <= old_v.len(),
                task.metadata@ == old_v,
                found is None ==> meta_index(old_v, key@) == meta_index(old_v.take(i as int), key@),
                found matches Some(f) ==> meta_index(old_v, key@) == f,
            decreases i + if found is None { 1int } else { 0int },
        {
            if str_eq(task.metadata[i - 1].0.as_str(), key) {
                assert(old_v.take(i as int).last() == old_v[i - 1]);
                found = Some(i - 1);
            } else {
                assert(old_v.take(i as int).drop_last() =~= old_v.take(i - 1));
                i = i - 1;
            }
        }
        proof {
            lemma_meta_index(old_v, key@);
        }
        match found {
            Some(f) => {
                assert(meta_index(old_v, key@) == f);
                let _old = task.metadata.remove(f);
                task.metadata.insert(f, (string_of(key), value));
                proof {
                    let v = task.metadata@;
                    assert(v =~= old_v.update(f as int, v[f as int]));
                    assert forall|k: Seq<char>| #[trigger] meta_index(v, k) == meta_index(old_v, k) by {
                        lemma_meta_update(old_v, f as int, v[f as int], k);
                    }
                    assert forall|k: Seq<char>| #[trigger] meta_map(v).contains_key(k) implies meta_map(v)[k]
                        == meta_map(old_v).insert(key@, value)[k] by {
                        assert(meta_index(v, k) == meta_index(old_v, k));
                        lemma_meta_index(old_v, k);
                        if k != key@ {
                            assert(meta_index(old_v, k) != f);
                            assert(v[meta_index(v, k)] == old_v[meta_index(old_v, k)]);
                        }
                    }
                    assert forall|k: Seq<char>| meta_map(v).contains_key(k) <==> #[trigger] meta_map(
                        old_v,
                    ).insert(key@, value).contains_key(k) by {
                        assert(meta_index(v, k) == meta_index(old_v, k));
                    }
                    assert(meta_map(v) =~= meta_map(old_v).insert(key@, value));
                }
            },
            None => {
                assert(meta_index(old_v, key@) == -1);
                task.metadata.push((string_of(key), value));
                proof {
                    let v = task.metadata@;
                    assert(v.drop_last() =~= old_v);
                    assert forall|k: Seq<char>| #[trigger] meta_map(v).contains_key(k) implies meta_map(v)[k]
                        == meta_map(old_v).insert(key@, value)[k] by {
                        if k != key@ {
                            lemma_meta_index(old_v, k);
                            assert(v[meta_index(old_v, k)] == old_v[meta_index(old_v, k)]);
                        }
                    }
                    assert forall|k: Seq<char>| meta_map(v).contains_key(k) <==> #[trigger] meta_map(
                        old_v,
                    ).insert(key@, value).contains_key(k) by {}
                    assert(meta_map(v) =~= meta_map(old_v).insert(key@, value));
                }
            },
        }
        task
    }
}

proof fn lemma_meta_update(v: Seq<(String, Value)>, i: int, p: (String, Value), k: Seq<char>)
    requires
        0 <= i < v.len(),
        p.0@ == v[i].0@,
    ensures
        meta_index(v.update(i, p), k) == meta_index(v, k),
    decreases v.len(),
{
    let u = v.update(i, p);
    if i == v.len() - 1 {
        assert(u.drop_last() =~= v.drop_last());
    } else {
        assert(u.drop_last() =~= v.drop_last().update(i, p));
        lemma_meta_update(v.drop_last(), i, p, k);
    }
}

/// The outcome of one task.
#[derive(Debug, Clone)]
pub struct TaskResult {
    pub task_id: String,
    pub agent_id: String,
    pub output: Value,
    pub success: bool,
    pub error: Option<String>,
    pub error_kind: Option<ErrorKind>,
    pub steps_used: usize,
    pub session_id: String,
    pub metadata: TaskExecutionMetadata,
}

impl TaskResult {
    /// A successful outcome.
    pub fn success(
        task_id: String,
        agent_id: String,
        output: Value,
        steps_used: usize,
        session_id: String,
    ) -> (r: TaskResult)
        ensures
            r.task_id == task_id && r.agent_id == agent_id && r.output == output,
            r.success,
            r.error is None && r.error_kind is None,
            r.steps_used == steps_used,
            r.session_id == session_id,
    {
        TaskResult {
            task_id,
            agent_id,
            output,
            success: true,
            error: None,
            error_kind: None,
            steps_used,
            session_id,
            metadata: TaskExecutionMetadata::default(),
        }
    }

    /// A failed outcome of the given kind, with a `null` output and no
    /// steps used.
    pub fn failure_with_kind(task_id: String, agent_id: String, error: String, kind: ErrorKind) -> (r:
        TaskResult)
        ensures
            r.task_id == task_id && r.agent_id == agent_id,
            json_is_null(r.output),
            !r.success,
            r.error == Some(error),
            r.error_kind == Some(kind),
            r.steps_used == 0,
            r.session_id@.len() == 0,
    {
        TaskResult {
            task_id,
            agent_id,
            output: json_null(),
            success: false,
            error: Some(error),
            error_kind: Some(kind),
            steps_used: 0,
            session_id: String::new(),
            metadata: TaskExecutionMetadata::default(),
        }
    }

    /// A permanent failure.
    pub fn failure(task_id: String, agent_id: String, error: String) -> (r: TaskResult)
        ensures
            r.task_id == task_id && r.agent_id == agent_id,
            json_is_null(r.output),
            !r.success,
            r.error == Some(error),
            r.error_kind == Some(ErrorKind::Permanent),
            r.steps_used == 0,
            r.session_id@.len() == 0,
    {
        TaskResult::failure_with_kind(task_id, agent_id, error, ErrorKind::Permanent)
    }

    /// The outcome with `metadata` attached.
    pub fn with_metadata(self, metadata: TaskExecutionMetadata) -> (r: TaskResult)
        ensures
            r == (TaskResult { metadata, ..self }),
    {
        TaskResult { metadata, ..self }
    }

    /// Whether the failure is transient.
    pub fn is_transient(&self) -> (r: bool)
        ensures
            r == (self.error_kind == Some(ErrorKind::Transient)),
    {
        match self.error_kind {
            Some(ErrorKind::Transient) => true,
            _ => false,
        }
    }
}

/// Total steps used by the results of `s`.
pub open spec fn total_steps(s: Seq<TaskResult>) -> int
    decreases s.len(),
{
    if s.len() == 0 {
        0
    } else {
        total_steps(s.drop_last()) + s.last().steps_used
    }
}

/// Index of the first failed result of `s`, or `s.len()`.
pub open spec fn first_failure(s: Seq<TaskResult>) -> int
    decreases s.len(),
{
    if s.len() == 0 {
        0
    } else if !s[0].success {
        0
    } else {
        1 + first_failure(s.drop_first())
    }
}

proof fn lemma_first_failure(s: Seq<TaskResult>)
    ensures
        0 <= first_failure(s) <= s.len(),
        forall|j: int| 0 <= j < first_failure(s) ==> (#[trigger] s[j]).success,
        first_failure(s) < s.len() ==> !s[first_failure(s)].success,
    decreases s.len(),
{
    if s.len() > 0 && s[0].success {
        lemma_first_failure(s.drop_first());
        assert forall|j: int| 0 <= j < first_failure(s) implies (#[trigger] s[j]).success by {
            if j > 0 {
                assert(s[j] == s.drop_first()[j - 1]);
            }
        }
    }
}

/// The combined outcome of a pipeline of tasks.
#[derive(Debug, Clone)]
pub struct PipelineResult {
    pub task_results: Vec<TaskResult>,
    /// Output of the last task, or `null` for an empty pipeline.
    pub final_output: Value,
    pub total_steps: usize,
    /// Whether every task succeeded.
    pub success: bool,
    /// Error of the first failed task.
    pub error: Option<String>,
}

impl PipelineResult {
    /// Combines the results of the tasks of a pipeline, in order.
    pub fn from_results(results: Vec<TaskResult>) -> (p: PipelineResult)
        requires
            total_steps(results@) <= usize::MAX,
        ensures
            p.task_results@ == results@,
            p.total_steps == total_steps(results@),
            p.success == (forall|i: int| 0 <= i < results@.len() ==> (#[trigger] results@[i]).success),
            results@.len() > 0 ==> p.final_output == results@.last().output,
            results@.len() == 0 ==> json_is_null(p.final_output),
            p.success ==> p.error is None,
            !p.success ==> opt_view(p.error) == opt_view(results@[first_failure(results@)].error),
    {
        let mut total: usize = 0;
        let mut failed_at: Option<usize> = None;
        let mut i: usize = 0;
        proof {
            lemma_first_failure(results@);
            lemma_total_steps_prefix(results@, 0);
        }
        while i < results.len()
            invariant
                i <= results@.len(),
                total == total_steps(results@.take(i as int)),
                total_steps(results@) <= usize::MAX,
                failed_at is None ==> forall|j: int| 0 <= j < i ==> (#[trigger] results@[j]).success,
                failed_at matches Some(f) ==> f as int == first_failure(results@) && f < results@.len(),
                0 <= first_failure(results@) <= results@.len(),
                forall|j: int| 0 <= j < first_failure(results@) ==> (#[trigger] results@[j]).success,
                first_failure(results@) < results@.len() ==> !results@[first_failure(results@)].success,
            decreases results@.len() - i,
        {
            proof {
                lemma_total_steps_prefix(results@, i as int);
                lemma_total_steps_mono(results@, i + 1);
                assert(results@.take(i + 1).drop_last() =~= results@.take(i as int));
            }
            total = total + results[i].steps_used;
            if failed_at.is_none() && !results[i].success {
                proof {
                    let ff = first_failure(results@);
                    if ff < i {
                        assert(results@[ff].success);
                    }
                    if ff > i {
                        assert(results@[i as int].success);
                    }
                }
                failed_at = Some(i);
            }
            i = i + 1;
        }
        assert(results@.take(results@.len() as int) =~= results@);
        let n = results.len();
        let final_output = if n > 0 {
            results[n - 1].output.clone()
        } else {
            json_null()
        };
        proof {
            if let Some(f) = failed_at {
                assert(!results@[f as int].success);
            }
        }
        let error = match failed_at {
            Some(f) => copy_opt_string(&results[f].error),
            None => None,
        };
        PipelineResult {
            task_results: results,
            final_output,
            total_steps: total,
            success: failed_at.is_none(),
            error,
        }
    }
}

proof fn lemma_total_steps_prefix(s: Seq<TaskResult>, i: int)
    requires
        0 <= i <= s.len(),
    ensures
        total_steps(s.take(i)) >= 0,
    decreases i,
{
    if i > 0 {
        assert(s.take(i).drop_last() =~= s.take(i - 1));
        lemma_total_steps_prefix(s, i - 1);
    }
}

proof fn lemma_total_steps_mono(s: Seq<TaskResult>, i: int)
    requires
        0 <= i <= s.len(),
    ensures
        total_steps(s.take(i)) <= total_steps(s),
    decreases s.len() - i,
{
    if i < s.len() {
        lemma_total_steps_mono(s, i + 1);
        assert(s.take(i + 1).drop_last() =~= s.take(i));
        lemma_total_steps_prefix(s, i);
    } else {
        assert(s.take(i) =~= s);
    }
}

} // verus!
