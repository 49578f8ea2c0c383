//! Time limits for model and tool calls, and the decision of whether a
//! failed call is tried again.
use vstd::prelude::*;
use core::time::Duration;

verus! {

/// The duration of `ms` milliseconds, as `Duration::from_millis` builds it.
pub uninterp spec fn duration_of_millis(ms: u64) -> Duration;

/// `Duration::from_millis`: the duration of `ms` milliseconds.
#[verifier::external_body]
fn duration_from_millis(ms: u64) -> (d: Duration)
    ensures
        d == duration_of_millis(ms),
{
    Duration::from_millis(ms)
}

/// Per-call time limits for model inference and tool execution.
#[derive(Debug, Clone, Copy, PartialEq, Eq, Structural)]
pub struct TimeoutPolicy {
    /// Longest wait, in milliseconds, for the model to answer.
    pub llm_timeout_ms: u64,
    /// Longest wait, in milliseconds, for one tool call.
    pub tool_timeout_ms: u64,
}

impl Default for TimeoutPolicy {
    fn default() -> (p: TimeoutPolicy)
        ensures
            p.llm_timeout_ms == 30_000,
            p.tool_timeout_ms == 10_000,
    {
        TimeoutPolicy { llm_timeout_ms: 30_000, tool_timeout_ms: 10_000 }
    }
}

impl TimeoutPolicy {
    /// The model time limit as a duration.
    pub fn llm_duration(&self) -> (d: Duration)
        ensures
            d == duration_of_millis(self.llm_timeout_ms),
    {
        duration_from_millis(self.llm_timeout_ms)
    }

    /// The tool time limit as a duration.
    pub fn tool_duration(&self) -> (d: Duration)
        ensures
            d == duration_of_millis(self.tool_timeout_ms),
    {
        duration_from_millis(self.tool_timeout_ms)
    }
}

/// What to do after a failed attempt.
#[derive(Debug, Clone, Copy, PartialEq, Eq, Structural)]
pub enum RetryStep {
    /// Wait the back-off for the given retry number (0 for the first
    /// retry), then try again.
    RetryAfter(u32),
    /// Return the error.
    GiveUp,
}

/// Attempts made so far for one call under a retry policy.
#[derive(Debug, Clone, Copy, PartialEq, Eq, Structural)]
pub struct RetryState {
    /// Number of attempts that have failed.
    pub failed: u32,
}

/// The step after `failed` failures when at most `max_attempts` attempts
/// are allowed and the last error may or may not be retried.
pub open spec fn retry_step(max_attempts: u32, failed: u32, retryable: bool) -> RetryStep {
    if failed < max_attempts && retryable {
        RetryStep::RetryAfter((failed - 1) as u32)
    } else {
        RetryStep::GiveUp
    }
}

impl RetryState {
    /// No attempt has failed yet.
    pub fn new() -> (s: RetryState)
        ensures
            s.failed == 0,
    {
        RetryState { failed: 0 }
    }

    /// Records a failed attempt and decides whether to try again: only
    /// while fewer than `max_attempts` attempts have failed and the error
    /// may be retried.
    pub fn on_failure(&mut self, max_attempts: u32, retryable: bool) -> (step: RetryStep)
        requires
            old(self).failed == 0 || old(self).failed < max_attempts,
        ensures
            final(self).failed == old(self).failed + 1,
            step == retry_step(max_attempts, final(self).failed, retryable),
            step is RetryAfter ==> final(self).failed < max_attempts,
    {
        self.failed = self.failed + 1;
        if self.failed < max_attempts && retryable {
            RetryStep::RetryAfter(self.failed - 1)
        } else {
            RetryStep::GiveUp
        }
    }
}

/// Law: a call is attempted at most `max(max_attempts, 1)` times: once
/// `max_attempts` attempts have failed, the next decision is to give up,
/// and a decision to retry always leaves room for one more attempt.
pub proof fn lemma_retry_bounded(max_attempts: u32, failed: u32, retryable: bool)
    requires
        failed >= 1,
    ensures
        failed >= max_attempts ==> retry_step(max_attempts, failed, retryable) == RetryStep::GiveUp,
        !retryable ==> retry_step(max_attempts, failed, retryable) == RetryStep::GiveUp,
        retry_step(max_attempts, failed, retryable) is RetryAfter ==> failed + 1 <= max_attempts,
        retry_step(max_attempts, failed, retryable) matches RetryStep::RetryAfter(n) ==> n + 1
            == failed,
{
}

} // verus!
