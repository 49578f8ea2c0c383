//! Agent finite state machine: the phases of one agent loop and the
//! transitions allowed between them.
//!
//! ```text
//! Idle → UserTurnPrepared → LlmStreaming → LlmCommitted
//!   → ToolRequested → ToolResultProcessed → LlmStreaming (loop)
//!   → ToolRequested → ToolResultProcessed → Final
//!   → LlmCommitted → Final
//!   → LlmCommitted → Idle (retry)
//!   → ToolResultProcessed → Idle (retry)
//!   → Final → Idle (new turn)
//! ```
use vstd::prelude::*;
use crate::text::push_str;

verus! {

/// Phases of the agent loop.
#[derive(Debug, Clone, Copy, PartialEq, Eq, Hash, Structural)]
pub enum AgentFsmState {
    Idle,
    UserTurnPrepared,
    LlmStreaming,
    LlmCommitted,
    ToolRequested,
    ToolResultProcessed,
    Final,
}

/// The transition relation of the agent loop.
pub open spec fn transition_allowed(from: AgentFsmState, to: AgentFsmState) -> bool {
    ||| (from == AgentFsmState::Idle && to == AgentFsmState::UserTurnPrepared)
    ||| (from == AgentFsmState::UserTurnPrepared && to == AgentFsmState::LlmStreaming)
    ||| (from == AgentFsmState::LlmStreaming && to == AgentFsmState::LlmCommitted)
    ||| (from == AgentFsmState::LlmCommitted && to == AgentFsmState::ToolRequested)
    ||| (from == AgentFsmState::LlmCommitted && to == AgentFsmState::Final)
    ||| (from == AgentFsmState::LlmCommitted && to == AgentFsmState::Idle)
    ||| (from == AgentFsmState::ToolRequested && to == AgentFsmState::ToolResultProcessed)
    ||| (from == AgentFsmState::ToolResultProcessed && to == AgentFsmState::LlmStreaming)
    ||| (from == AgentFsmState::ToolResultProcessed && to == AgentFsmState::Final)
    ||| (from == AgentFsmState::ToolResultProcessed && to == AgentFsmState::Idle)
    ||| (from == AgentFsmState::Final && to == AgentFsmState::Idle)
}

/// Snake-case name of a state, as used in log messages.
pub open spec fn state_name(s: AgentFsmState) -> Seq<char> {
    match s {
        AgentFsmState::Idle => "idle"@,
        AgentFsmState::UserTurnPrepared => "user_turn_prepared"@,
        AgentFsmState::LlmStreaming => "llm_streaming"@,
        AgentFsmState::LlmCommitted => "llm_committed"@,
        AgentFsmState::ToolRequested => "tool_requested"@,
        AgentFsmState::ToolResultProcessed => "tool_result_processed"@,
        AgentFsmState::Final => "final"@,
    }
}

/// Error returned when an invalid transition is attempted.
#[derive(Debug, Clone, Copy, PartialEq, Eq, Structural)]
pub struct FsmTransitionError {
    /// State the machine was in when the transition was attempted.
    pub from: AgentFsmState,
    /// State the caller tried to move to.
    pub to: AgentFsmState,
}

/// Text of a transition error: `invalid FSM transition: <from> → <to>`.
pub open spec fn transition_error_text(from: AgentFsmState, to: AgentFsmState) -> Seq<char> {
    "invalid FSM transition: "@ + state_name(from) + " → "@ + state_name(to)
}

impl AgentFsmState {
    /// The state of a fresh agent loop.
    pub fn initial() -> (s: Self)
        ensures
            s == AgentFsmState::Idle,
    {
        AgentFsmState::Idle
    }

    /// Moves to `next` when the machine allows it; otherwise reports the
    /// attempted transition and leaves the state unchanged.
    pub fn transition_to(&mut self, next: AgentFsmState) -> (r: Result<(), FsmTransitionError>)
        ensures
            r is Ok <==> transition_allowed(*old(self), next),
            r is Ok ==> *final(self) == next,
            r is Err ==> *final(self) == *old(self),
            r matches Err(e) ==> e.from == *old(self) && e.to == next,
    {
        if self.can_transition_to(&next) {
            *self = next;
            Ok(())
        } else {
            Err(FsmTransitionError { from: *self, to: next })
        }
    }

    /// Whether the machine allows a move from `self` to `next`.
    pub fn can_transition_to(&self, next: &AgentFsmState) -> (r: bool)
        ensures
            r == transition_allowed(*self, *next),
    {
        (*self == Self::Idle && *next == Self::UserTurnPrepared)
            || (*self == Self::UserTurnPrepared && *next == Self::LlmStreaming)
            || (*self == Self::LlmStreaming && *next == Self::LlmCommitted)
            || (*self == Self::LlmCommitted && *next == Self::ToolRequested)
            || (*self == Self::LlmCommitted && *next == Self::Final)
            || (*self == Self::LlmCommitted && *next == Self::Idle)
            || (*self == Self::ToolRequested && *next == Self::ToolResultProcessed)
            || (*self == Self::ToolResultProcessed && *next == Self::LlmStreaming)
            || (*self == Self::ToolResultProcessed && *next == Self::Final)
            || (*self == Self::ToolResultProcessed && *next == Self::Idle)
            || (*self == Self::Final && *next == Self::Idle)
    }

    /// The snake-case name of the state.
    pub fn name(&self) -> (r: &'static str)
        ensures
            r@ == state_name(*self),
    {
        match self {
            AgentFsmState::Idle => "idle",
            AgentFsmState::UserTurnPrepared => "user_turn_prepared",
            AgentFsmState::LlmStreaming => "llm_streaming",
            AgentFsmState::LlmCommitted => "llm_committed",
            AgentFsmState::ToolRequested => "tool_requested",
            AgentFsmState::ToolResultProcessed => "tool_result_processed",
            AgentFsmState::Final => "final",
        }
    }

    /// The snake-case name of the state as an owned string.
    pub fn to_string(&self) -> (r: String)
        ensures
            r@ == state_name(*self),
    {
        String::from_str(self.name())
    }
}

impl FsmTransitionError {
    /// Human-readable description of the rejected transition.
    pub fn to_string(&self) -> (r: String)
        ensures
            r@ == transition_error_text(self.from, self.to),
    {
        let mut s = String::from_str("invalid FSM transition: ");
        push_str(&mut s, self.from.name());
        push_str(&mut s, " → ");
        push_str(&mut s, self.to.name());
        s
    }
}

/// Law: every state has at least one allowed successor, so the loop never
/// gets stuck, and `Idle` is reachable again from every other state in at
/// most three steps.
pub proof fn lemma_fsm_never_stuck(s: AgentFsmState)
    ensures
        exists|t: AgentFsmState| transition_allowed(s, t),
        s != AgentFsmState::Idle ==> (transition_allowed(s, AgentFsmState::Idle)
            || exists|m: AgentFsmState|
            transition_allowed(s, m) && transition_allowed(m, AgentFsmState::Idle)
            || exists|m1: AgentFsmState, m2: AgentFsmState|
            transition_allowed(s, m1) && transition_allowed(m1, m2) && transition_allowed(
                m2,
                AgentFsmState::Idle,
            )),
{
    match s {
        AgentFsmState::Idle => {
            assert(transition_allowed(s, AgentFsmState::UserTurnPrepared));
        },
        AgentFsmState::UserTurnPrepared => {
            assert(transition_allowed(s, AgentFsmState::LlmStreaming));
            assert(transition_allowed(AgentFsmState::LlmStreaming, AgentFsmState::LlmCommitted));
            assert(transition_allowed(AgentFsmState::LlmCommitted, AgentFsmState::Idle));
        },
        AgentFsmState::LlmStreaming => {
            assert(transition_allowed(s, AgentFsmState::LlmCommitted));
            assert(transition_allowed(AgentFsmState::LlmCommitted, AgentFsmState::Idle));
        },
        AgentFsmState::LlmCommitted => {
            assert(transition_allowed(s, AgentFsmState::Idle));
        },
        AgentFsmState::ToolRequested => {
            assert(transition_allowed(s, AgentFsmState::ToolResultProcessed));
            assert(transition_allowed(AgentFsmState::ToolResultProcessed, AgentFsmState::Idle));
        },
        AgentFsmState::ToolResultProcessed => {
            assert(transition_allowed(s, AgentFsmState::Idle));
        },
        AgentFsmState::Final => {
            assert(transition_allowed(s, AgentFsmState::Idle));
        },
    }
}

/// Law: `Final` is entered only from `LlmCommitted` or
/// `ToolResultProcessed`, and `Idle` only from `LlmCommitted`,
/// `ToolResultProcessed` or `Final`.
pub proof fn lemma_fsm_entry_points(from: AgentFsmState, to: AgentFsmState)
    requires
        transition_allowed(from, to),
    ensures
        to == AgentFsmState::Final ==> (from == AgentFsmState::LlmCommitted || from
            == AgentFsmState::ToolResultProcessed),
        to == AgentFsmState::Idle ==> (from == AgentFsmState::LlmCommitted || from
            == AgentFsmState::ToolResultProcessed || from == AgentFsmState::Final),
        from != to,
{
}

} // verus!
