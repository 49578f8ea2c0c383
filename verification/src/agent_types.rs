//! Types of the WASM agent boundary: the agent loop state machine as the
//! boundary sees it, context policies, messages and agent configuration.
use vstd::prelude::*;
use crate::clock::now_unix_ms;
use crate::fsm;
use crate::json::JsonValue;
use crate::text::{push_signed_decimal, signed_decimal, string_of};

verus! {

/// Phases of the agent loop, as exchanged across the WASM boundary.  The
/// transitions are the same as those of [`crate::fsm::AgentFsmState`].
#[derive(Debug, Clone, Copy, PartialEq, Eq, Hash, Structural, Default)]
pub enum AgentFsmState {
    #[default]
    Idle,
    UserTurnPrepared,
    LlmStreaming,
    LlmCommitted,
    ToolRequested,
    ToolResultProcessed,
    Final,
}

/// The transition relation of the boundary state machine.
pub open spec fn transition_allowed(from: AgentFsmState, to: AgentFsmState) -> bool {
    ||| (from == AgentFsmState::Idle && to == AgentFsmState::UserTurnPrepared)
    ||| (from == AgentFsmState::UserTurnPrepared && to == AgentFsmState::LlmStreaming)
    ||| (from == AgentFsmState::LlmStreaming && to == AgentFsmState::LlmCommitted)
    ||| (from == AgentFsmState::LlmCommitted && to == AgentFsmState::ToolRequested)
    ||| (from == AgentFsmState::LlmCommitted && to == AgentFsmState::Final)
    ||| (from == AgentFsmState::LlmCommitted && to == AgentFsmState::Idle)
    ||| (from == AgentFsmState::ToolRequested && to == AgentFsmState::ToolResultProcessed)
    ||| (from == AgentFsmState::ToolResultProcessed && to == AgentFsmState::LlmStreaming)
    ||| (from == AgentFsmState::ToolResultProcessed && to == AgentFsmState::Final)
    ||| (from == AgentFsmState::ToolResultProcessed && to == AgentFsmState::Idle)
    ||| (from == AgentFsmState::Final && to == AgentFsmState::Idle)
}

/// The core state with the same name.
pub open spec fn to_core(s: AgentFsmState) -> fsm::AgentFsmState {
    match s {
        AgentFsmState::Idle => fsm::AgentFsmState::Idle,
        AgentFsmState::UserTurnPrepared => fsm::AgentFsmState::UserTurnPrepared,
        AgentFsmState::LlmStreaming => fsm::AgentFsmState::LlmStreaming,
        AgentFsmState::LlmCommitted => fsm::AgentFsmState::LlmCommitted,
        AgentFsmState::ToolRequested => fsm::AgentFsmState::ToolRequested,
        AgentFsmState::ToolResultProcessed => fsm::AgentFsmState::ToolResultProcessed,
        AgentFsmState::Final => fsm::AgentFsmState::Final,
    }
}

/// Error returned when an invalid transition is attempted.
#[derive(Debug, Clone, Copy, PartialEq, Eq, Structural)]
pub struct FsmTransitionError {
    pub from: AgentFsmState,
    pub to: AgentFsmState,
}

impl AgentFsmState {
    /// The state of a fresh agent loop.
    pub fn initial() -> (s: Self)
        ensures
            s == AgentFsmState::Idle,
    {
        AgentFsmState::Idle
    }

    /// Moves to `next` when the machine allows it; otherwise reports the
    /// attempted transition and leaves the state unchanged.
    pub fn transition_to(&mut self, next: AgentFsmState) -> (r: Result<(), FsmTransitionError>)
        ensures
            r is Ok <==> transition_allowed(*old(self), next),
            r is Ok ==> *final(self) == next,
            r is Err ==> *final(self) == *old(self),
            r matches Err(e) ==> e.from == *old(self) && e.to == next,
    {
        if self.can_transition_to(&next) {
            *self = next;
            Ok(())
        } else {
            Err(FsmTransitionError { from: *self, to: next })
        }
    }

    /// Whether the machine allows a move from `self` to `next`.
    pub fn can_transition_to(&self, next: &AgentFsmState) -> (r: bool)
        ensures
            r == transition_allowed(*self, *next),
    {
        (*self == Self::Idle && *next == Self::UserTurnPrepared)
            || (*self == Self::UserTurnPrepared && *next == Self::LlmStreaming)
            || (*self == Self::LlmStreaming && *next == Self::LlmCommitted)
            || (*self == Self::LlmCommitted && *next == Self::ToolRequested)
            || (*self == Self::LlmCommitted && *next == Self::Final)
            || (*self == Self::LlmCommitted && *next == Self::Idle)
            || (*self == Self::ToolRequested && *next == Self::ToolResultProcessed)
            || (*self == Self::ToolResultProcessed && *next == Self::LlmStreaming)
            || (*self == Self::ToolResultProcessed && *next == Self::Final)
            || (*self == Self::ToolResultProcessed && *next == Self::Idle)
            || (*self == Self::Final && *next == Self::Idle)
    }

    /// The core state with the same name.
    pub fn core_state(&self) -> (r: fsm::AgentFsmState)
        ensures
            r == to_core(*self),
    {
        match self {
            AgentFsmState::Idle => fsm::AgentFsmState::Idle,
            AgentFsmState::UserTurnPrepared => fsm::AgentFsmState::UserTurnPrepared,
            AgentFsmState::LlmStreaming => fsm::AgentFsmState::LlmStreaming,
            AgentFsmState::LlmCommitted => fsm::AgentFsmState::LlmCommitted,
            AgentFsmState::ToolRequested => fsm::AgentFsmState::ToolRequested,
            AgentFsmState::ToolResultProcessed => fsm::AgentFsmState::ToolResultProcessed,
            AgentFsmState::Final => fsm::AgentFsmState::Final,
        }
    }

    /// The snake-case name of the state.
    pub fn to_string(&self) -> (r: String)
        ensures
            r@ == fsm::state_name(to_core(*self)),
    {
        self.core_state().to_string()
    }
}

impl FsmTransitionError {
    /// Human-readable description of the rejected transition.
    pub fn to_string(&self) -> (r: String)
        ensures
            r@ == fsm::transition_error_text(to_core(self.from), to_core(self.to)),
    {
        fsm::FsmTransitionError { from: self.from.core_state(), to: self.to.core_state() }.to_string()
    }
}

/// Law: the boundary state machine and the core one allow exactly the same
/// transitions, state for state, and name their states alike.
pub proof fn lemma_fsm_parity(a: AgentFsmState, b: AgentFsmState)
    ensures
        transition_allowed(a, b) <==> fsm::transition_allowed(to_core(a), to_core(b)),
        to_core(a) == to_core(b) ==> a == b,
{
}

/// How old messages are dropped when the history is too long.
#[derive(Debug, Clone, Copy, PartialEq, Eq, Structural, Default)]
pub enum TruncationStrategy {
    #[default]
    KeepNewest,
    KeepBalanced,
}

/// Limits on the conversation history kept in context.
#[derive(Debug, Clone, Copy, PartialEq, Eq, Structural, Default)]
pub struct ContextPolicy {
    pub max_history_messages: usize,
    pub summarize_after_messages: usize,
    pub summary_max_chars: usize,
    pub truncation_strategy: TruncationStrategy,
}

/// A rolling summary of older messages.
#[derive(Debug, Clone, Default)]
pub struct ContextSummary {
    pub version: u64,
    pub text: String,
    pub source_messages: usize,
}

/// A tool call requested by the model.
#[derive(Debug, PartialEq)]
pub struct ToolCall {
    pub name: String,
    pub arguments: JsonValue,
    /// The session's step when the call was requested.
    pub step_id: u32,
}

/// The result of a tool call.
#[derive(Debug, PartialEq)]
pub struct ToolResult {
    pub name: String,
    pub success: bool,
    pub output: JsonValue,
    pub error: Option<String>,
    pub step_id: u32,
}

/// A message of the conversation.
#[derive(Debug, PartialEq)]
pub struct AgentMessage {
    /// `user`, `assistant`, `system` or `tool`.
    pub role: String,
    pub content: String,
    pub tool_call: Option<ToolCall>,
    pub tool_result: Option<ToolResult>,
}

/// Agent behaviour settings.
#[derive(Debug, Clone)]
pub struct AgentConfig {
    pub max_steps: u32,
    pub verbose: bool,
    pub auto_execute_tools: bool,
    /// Idle time, in seconds, after which a session is archived.
    pub session_timeout_secs: u32,
    pub session_id: String,
    pub context_policy: ContextPolicy,
}

/// Session id derived from a creation time in milliseconds.
pub open spec fn session_id_for_ms(ms: i64) -> Seq<char> {
    "session-"@ + signed_decimal(ms as int)
}

/// The default context policy of a new configuration.
pub open spec fn default_context_policy() -> ContextPolicy {
    ContextPolicy {
        max_history_messages: 24,
        summarize_after_messages: 12,
        summary_max_chars: 1200,
        truncation_strategy: TruncationStrategy::KeepNewest,
    }
}

impl AgentConfig {
    /// A copy of the configuration.
    pub fn duplicate(&self) -> (r: AgentConfig)
        ensures
            r == *self,
    {
        AgentConfig {
            max_steps: self.max_steps,
            verbose: self.verbose,
            auto_execute_tools: self.auto_execute_tools,
            session_timeout_secs: self.session_timeout_secs,
            session_id: self.session_id.clone(),
            context_policy: self.context_policy,
        }
    }

    /// The default configuration, for a session created at `now_ms`.
    pub fn default_at(now_ms: i64) -> (c: AgentConfig)
        ensures
            c.max_steps == 10,
            !c.verbose,
            c.auto_execute_tools,
            c.session_timeout_secs == 300,
            c.session_id@ == session_id_for_ms(now_ms),
            c.context_policy == default_context_policy(),
    {
        let mut id = string_of("session-");
        push_signed_decimal(&mut id, now_ms);
        AgentConfig {
            max_steps: 10,
            verbose: false,
            auto_execute_tools: true,
            session_timeout_secs: 300,
            session_id: id,
            context_policy: ContextPolicy {
                max_history_messages: 24,
                summarize_after_messages: 12,
                summary_max_chars: 1200,
                truncation_strategy: TruncationStrategy::KeepNewest,
            },
        }
    }
}

impl Default for AgentConfig {
    /// The default configuration, for a session created now.
    fn default() -> (c: AgentConfig)
        ensures
            c.max_steps == 10,
            !c.verbose,
            c.auto_execute_tools,
            c.session_timeout_secs == 300,
            exists|ms: i64| c.session_id@ == session_id_for_ms(ms),
            c.context_policy == default_context_policy(),
    {
        AgentConfig::default_at(now_unix_ms())
    }
}

} // verus!
