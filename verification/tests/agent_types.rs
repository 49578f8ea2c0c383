use antikythera::agent_types::{AgentConfig, AgentFsmState, FsmTransitionError, TruncationStrategy};
use antikythera::fsm;

#[test]
fn boundary_machine_matches_the_core_one() {
    let all = [
        AgentFsmState::Idle,
        AgentFsmState::UserTurnPrepared,
        AgentFsmState::LlmStreaming,
        AgentFsmState::LlmCommitted,
        AgentFsmState::ToolRequested,
        AgentFsmState::ToolResultProcessed,
        AgentFsmState::Final,
    ];
    for a in all.iter() {
        for b in all.iter() {
            assert_eq!(
                a.can_transition_to(b),
                a.core_state().can_transition_to(&b.core_state())
            );
        }
        assert_eq!(a.to_string(), a.core_state().to_string());
    }
    assert_eq!(AgentFsmState::default(), AgentFsmState::Idle);
    let e = FsmTransitionError { from: AgentFsmState::Final, to: AgentFsmState::LlmStreaming };
    assert_eq!(e.to_string(), "invalid FSM transition: final → llm_streaming");
    assert_eq!(fsm::AgentFsmState::initial(), AgentFsmState::initial().core_state());
}

#[test]
fn default_config() {
    let c = AgentConfig::default_at(1234);
    assert_eq!(c.max_steps, 10);
    assert!(!c.verbose);
    assert!(c.auto_execute_tools);
    assert_eq!(c.session_timeout_secs, 300);
    assert_eq!(c.session_id, "session-1234");
    assert_eq!(c.context_policy.max_history_messages, 24);
    assert_eq!(c.context_policy.summarize_after_messages, 12);
    assert_eq!(c.context_policy.summary_max_chars, 1200);
    assert_eq!(c.context_policy.truncation_strategy, TruncationStrategy::KeepNewest);
    assert!(AgentConfig::default().session_id.starts_with("session-"));
    assert_eq!(c.duplicate().session_id, "session-1234");
}
