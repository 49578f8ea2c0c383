use antikythera::agent_types::{ContextPolicy, TruncationStrategy};
use antikythera::agent_types::AgentFsmState;
use antikythera::json::JsonValue;
use antikythera::log_entries::LogFilter;
use antikythera::logger::{LogRegistry, Logger};
use antikythera::runner::AgentRunnerError;
use antikythera::runtime::{AgentRunnerRuntime, RunnerConfigInput};
use antikythera::streaming::{PrepareUserTurnInput, StreamEventKind, ToolDefinition};

fn input(session: Option<&str>) -> RunnerConfigInput {
    RunnerConfigInput { session_id: session.map(|s| s.to_string()), ..Default::default() }
}

#[test]
fn configure_creates_the_session_from_the_defaults() {
    let mut reg = LogRegistry::new();
    let mut rt = AgentRunnerRuntime::new_at(0);
    let id = rt
        .configure(
            &mut reg,
            RunnerConfigInput { max_steps: Some(3), ..input(Some("s-1")) },
        )
        .unwrap();
    assert_eq!(id, "s-1");
    assert_eq!(rt.default_config().max_steps, 3);
    let state = rt.get_state(&mut reg, "s-1").unwrap();
    assert_eq!(state.session_id, "s-1");
    assert_eq!(state.config.max_steps, 3);
    assert_eq!(state.config.session_id, "s-1");
    // Configuring again keeps the session.
    rt.configure(&mut reg, input(Some("s-1"))).unwrap();
    assert_eq!(rt.sessions().len(), 1);
}

#[test]
fn configure_without_id_makes_one() {
    let mut reg = LogRegistry::new();
    let mut rt = AgentRunnerRuntime::new();
    let a = rt.configure(&mut reg, input(None)).unwrap();
    let b = rt.configure(&mut reg, input(None)).unwrap();
    assert!(a.starts_with("session-"));
    assert_ne!(a, b);
    assert_eq!(rt.sessions().len(), 2);
}

#[test]
fn capacity_spares_the_configured_session() {
    let mut reg = LogRegistry::new();
    let mut rt = AgentRunnerRuntime::new_at(0);
    rt.configure(&mut reg, input(Some("a"))).unwrap();
    rt.configure(&mut reg, input(Some("b"))).unwrap();
    rt.configure(&mut reg, RunnerConfigInput { max_in_memory_sessions: Some(0), ..input(Some("c")) })
        .unwrap();
    // A capacity of 0 becomes 1: only the session just configured stays.
    assert_eq!(rt.sessions().max_in_memory_sessions(), 1);
    assert_eq!(rt.sessions().len(), 1);
    assert!(rt.sessions().contains("c"));
    match rt.get_state(&mut reg, "a") {
        Err(AgentRunnerError::SessionArchived(_)) => {}
        other => panic!("expected archived, got {:?}", other.map(|s| s.current_step)),
    }
    assert!(!rt.reset_session("a"));
    assert!(matches!(rt.get_state(&mut reg, "a"), Err(AgentRunnerError::SessionNotFound(_))));
}

#[test]
fn context_policy_defaults() {
    let mut reg = LogRegistry::new();
    let mut rt = AgentRunnerRuntime::new_at(0);
    let custom = ContextPolicy {
        max_history_messages: 4,
        summarize_after_messages: 2,
        summary_max_chars: 100,
        truncation_strategy: TruncationStrategy::KeepBalanced,
    };
    assert_eq!(rt.resolve_policy(Some(custom)), custom);
    assert_eq!(rt.resolve_policy(None).max_history_messages, 24);
    assert!(rt.set_context_policy(&mut reg, custom));
    assert_eq!(rt.resolve_policy(None), custom);
}

#[test]
fn idle_sessions_are_swept() {
    let mut reg = LogRegistry::new();
    let mut rt = AgentRunnerRuntime::new_at(0);
    rt.configure(
        &mut reg,
        RunnerConfigInput { session_timeout_secs: Some(1), ..input(Some("idle")) },
    )
    .unwrap();
    assert_eq!(rt.sweep_sessions(&mut reg, Some(0)), 0);
    let far_future = i64::MAX;
    assert_eq!(rt.sweep_idle_sessions(&mut reg, far_future), 1);
    assert_eq!(rt.sessions().len(), 0);
}

#[test]
fn responses_are_processed_for_a_session() {
    let mut reg = LogRegistry::new();
    let mut rt = AgentRunnerRuntime::new_at(0);
    // A fresh session is idle: the guard cannot force streaming, so the
    // commit fails.
    let err = rt.process_llm_response_for_session(&mut reg, "s", "hi").unwrap_err();
    assert_eq!(err.to_string(), "Internal error: invalid FSM transition: idle → llm_committed");
    assert!(rt.sessions().contains("s"));
    // A tool result is recorded even when the machine cannot move.
    let err = rt
        .process_tool_result_for_session(&mut reg, "s", "t", false, JsonValue::Null, None, None)
        .unwrap_err();
    assert_eq!(
        err.to_string(),
        "Internal error: invalid FSM transition: idle → tool_result_processed"
    );
    let state = rt.get_state(&mut reg, "s").unwrap();
    assert_eq!(state.fsm_state, AgentFsmState::Idle);
    assert_eq!(state.current_step, 1);
    assert_eq!(state.message_history[0].content, "Tool 't' failed.\nError: Unknown error");
    let logs = Logger::new("s").get_logs(&reg, &LogFilter::new());
    assert!(logs
        .entries
        .iter()
        .any(|e| e.message == "FSM guard: state is 'idle' expected 'llm_streaming', forcing transition"));
    assert!(logs.entries.iter().any(|e| e.message == "FSM transition (forced): idle -> idle"));
}

#[test]
fn test_runner_facade_has_all_methods() {
    let rt = AgentRunnerRuntime::new();
    assert_eq!(rt.sessions().len(), 0);
    assert_eq!(rt.sessions().archived_len(), 0);
    assert!(rt.pending_events().is_empty());
}

#[test]
fn test_runner_default_config() {
    let rt = AgentRunnerRuntime::new();
    assert_eq!(rt.sessions().max_in_memory_sessions(), 128);
    assert!(rt.known_tools().is_empty());
}

#[test]
fn test_session_lifecycle_module_accessible() {
    let _rt = AgentRunnerRuntime::new();
}

#[test]
fn test_llm_stream_module_accessible() {
    let _rt = AgentRunnerRuntime::new();
}

#[test]
fn test_tool_pipeline_module_accessible() {
    let _rt = AgentRunnerRuntime::new();
}

fn turn(session: &str, prompt: &str) -> PrepareUserTurnInput {
    PrepareUserTurnInput {
        session_id: Some(session.to_string()),
        prompt: prompt.to_string(),
        ..Default::default()
    }
}

fn field(v: &JsonValue, key: &str) -> JsonValue {
    match v {
        JsonValue::Object(m) => m.iter().find(|(k, _)| k == key).map(|(_, x)| antikythera::json::copy_json(x)).unwrap(),
        _ => panic!("not an object"),
    }
}

fn s(t: &str) -> JsonValue {
    JsonValue::String(t.to_string())
}

fn kinds(events: &[antikythera::streaming::StreamEvent]) -> Vec<StreamEventKind> {
    events.iter().map(|e| e.kind).collect()
}

#[test]
fn preparing_a_turn_moves_the_session_to_streaming() {
    let mut reg = LogRegistry::new();
    let mut rt = AgentRunnerRuntime::new_at(0);
    let now = antikythera::clock::now_unix_ms();
    let p = rt
        .prepare_user_turn(
            &mut reg,
            PrepareUserTurnInput {
                system_prompt: Some("be brief".to_string()),
                force_json: Some(true),
                correlation_id: Some("c-1".to_string()),
                ..turn("s", "hello")
            },
            now,
        )
        .unwrap();
    assert_eq!(p.session_id, "s");
    assert_eq!(p.step, 0);
    assert_eq!(p.prompt, "hello");
    assert_eq!(p.system_prompt, "be brief");
    assert!(p.force_json);
    assert_eq!(p.correlation_id.as_deref(), Some("c-1"));
    assert_eq!(p.messages.len(), 2);
    assert_eq!(p.messages[0], vec![("role".to_string(), "system".to_string()), ("content".to_string(), "be brief".to_string())]);
    assert_eq!(p.messages[1], vec![("role".to_string(), "user".to_string()), ("content".to_string(), "hello".to_string())]);
    let state = rt.get_state(&mut reg, "s").unwrap();
    assert_eq!(state.fsm_state, AgentFsmState::LlmStreaming);
    assert_eq!(
        kinds(rt.pending_events()),
        vec![StreamEventKind::FsmStateChanged, StreamEventKind::FsmStateChanged, StreamEventKind::UserTurnPrepared]
    );
    assert_eq!(field(&rt.pending_events()[0].payload, "from"), s("idle"));
    assert_eq!(field(&rt.pending_events()[0].payload, "to"), s("user_turn_prepared"));
    assert_eq!(rt.pending_events()[0].seq, 1);
    assert_eq!(rt.pending_events()[2].seq, 3);
    assert_eq!(rt.pending_events()[0].correlation_id.as_deref(), Some("c-1"));
    assert_eq!(rt.pending_events()[0].step, 0);
    assert_eq!(field(&rt.pending_events()[1].payload, "to"), s("llm_streaming"));
    assert_eq!(field(&rt.pending_events()[2].payload, "messages_count"), JsonValue::Number("2".to_string()));
    assert_eq!(rt.get_telemetry_snapshot("s").counters.turns_prepared, 1);
    let snap = rt.get_telemetry_snapshot("s");
    assert_eq!(snap.session_id, "s");
    assert_eq!(snap.correlation_id.as_deref(), Some("c-1"));
    assert_eq!(snap.fsm_state, "llm_streaming");
    assert_eq!(rt.get_telemetry_snapshot("nobody").fsm_state, "");
    // A second turn from streaming first resets the machine to idle.
    rt.prepare_user_turn(&mut reg, turn("s", "again"), now).unwrap();
    let events = rt.drain_events("s");
    assert_eq!(events.len(), 7);
    assert_eq!(events[3].kind, StreamEventKind::FsmStateChanged);
    assert_eq!(field(&events[3].payload, "previous_state"), s("llm_streaming"));
    assert_eq!(field(&events[3].payload, "reason"), s("fresh_turn_reset"));
    assert!(rt.pending_events().is_empty());
    assert!(rt.drain_events("s").is_empty());
    let logs = Logger::new("s").get_logs(&reg, &LogFilter::new());
    assert!(logs.entries.iter().any(|e| e.message
        == "Session in non-idle FSM state 'llm_streaming', resetting to idle for fresh turn"));
}

#[test]
fn preparing_a_turn_on_an_archived_session_asks_for_a_restore() {
    let mut reg = LogRegistry::new();
    let mut rt = AgentRunnerRuntime::new_at(0);
    rt.configure(&mut reg, input(Some("old"))).unwrap();
    // Far in the future the session is idle and gets archived.
    let later = antikythera::clock::now_unix_ms() + 10_000_000;
    let err = rt.prepare_user_turn(&mut reg, turn("old", "hi"), later).unwrap_err();
    match &err {
        AgentRunnerError::SessionArchived(m) => assert_eq!(m, "Session 'old' archived and not in RAM"),
        other => panic!("unexpected {:?}", other),
    }
    assert!(!rt.sessions().contains("old"));
    let events = rt.drain_events("old");
    assert_eq!(
        kinds(&events),
        vec![StreamEventKind::SessionRestoreRequested, StreamEventKind::SessionRestoreProgress]
    );
    assert_eq!(field(&events[0].payload, "reason"), s("idle_timeout"));
    assert_eq!(field(&events[1].payload, "stage"), s("requested"));
}

#[test]
fn prepared_turns_carry_the_tools_block() {
    let mut reg = LogRegistry::new();
    let mut rt = AgentRunnerRuntime::new_at(0);
    let n = rt.register_tools(
        &mut reg,
        vec![ToolDefinition { name: "search".to_string(), description: "Find things".to_string(), input_schema: None }],
    );
    assert_eq!(n, 1);
    assert_eq!(rt.get_tools_prompt(), "Available tools:\n- search: Find things");
    let now = antikythera::clock::now_unix_ms();
    let p = rt
        .prepare_user_turn(&mut reg, PrepareUserTurnInput { system_prompt: Some("base".to_string()), ..turn("t", "q") }, now)
        .unwrap();
    assert_eq!(p.system_prompt, "base\n\nAvailable tools:\n- search: Find things");
    let logs = Logger::new("runtime").get_logs(&reg, &LogFilter::new());
    assert!(logs.entries.iter().any(|e| e.message == "1 tools registered"));
}

#[test]
fn committing_a_final_answer_records_both_messages() {
    let mut reg = LogRegistry::new();
    let mut rt = AgentRunnerRuntime::new_at(0);
    let now = antikythera::clock::now_unix_ms();
    let p = rt.prepare_user_turn(&mut reg, turn("s", "hello"), now).unwrap();
    let c = rt.commit_llm_response(&mut reg, &p, r#"{"action":"final","response":"hi there"}"#, now).unwrap();
    assert_eq!(c.action, "final");
    assert_eq!(c.content.as_deref(), Some("hi there"));
    assert_eq!(c.fsm_state, "final");
    assert_eq!(c.session_id, "s");
    let state = rt.get_state(&mut reg, "s").unwrap();
    assert_eq!(state.message_history.len(), 2);
    assert_eq!(state.message_history[0].role, "user");
    assert_eq!(state.message_history[0].content, "hello");
    assert_eq!(state.message_history[1].role, "assistant");
    assert_eq!(state.message_history[1].content, "hi there");
    let events = rt.drain_events("s");
    assert_eq!(&kinds(&events)[3..], &[StreamEventKind::LlmCommitted, StreamEventKind::FinalResponse]);
    assert_eq!(field(&events[4].payload, "content"), s("hi there"));
    assert_eq!(field(&events[3].payload, "length"), JsonValue::Number("40".to_string()));
    let t = rt.get_telemetry_snapshot("s").counters;
    assert_eq!((t.llm_commits, t.final_responses), (1, 1));
}

#[test]
fn committing_a_json_answer_writes_it_as_text() {
    let mut reg = LogRegistry::new();
    let mut rt = AgentRunnerRuntime::new_at(0);
    let now = antikythera::clock::now_unix_ms();
    let p = rt.prepare_user_turn(&mut reg, turn("s", "q"), now).unwrap();
    let c = rt.commit_llm_response(&mut reg, &p, r#"{"response":{"b":1,"a":[true,null]}}"#, now).unwrap();
    assert_eq!(c.action, "final");
    assert_eq!(c.content.as_deref(), Some(r#"{"a":[true,null],"b":1}"#));
}

#[test]
fn committing_a_tool_call_checks_the_registered_tools() {
    let mut reg = LogRegistry::new();
    let mut rt = AgentRunnerRuntime::new_at(0);
    rt.register_tools(
        &mut reg,
        vec![ToolDefinition { name: "search".to_string(), description: String::new(), input_schema: None }],
    );
    let now = antikythera::clock::now_unix_ms();
    let p = rt.prepare_user_turn(&mut reg, turn("s", "find"), now).unwrap();
    let c = rt.commit_llm_response(&mut reg, &p, r#"{"action":"call_tool","tool":"search","input":{"q":"x"}}"#, now)
        .unwrap();
    assert_eq!(c.action, "call_tool");
    assert_eq!(c.tool_name.as_deref(), Some("search"));
    assert_eq!(c.fsm_state, "tool_requested");
    assert_eq!(c.step, 1);
    let state = rt.get_state(&mut reg, "s").unwrap();
    let last = state.message_history.last().unwrap();
    assert_eq!(last.content, "call_tool:search");
    let call = last.tool_call.as_ref().unwrap();
    assert_eq!(call.name, "search");
    assert_eq!(call.step_id, 1);
    // The next turn hands the call to the model as JSON text.
    let p2 = rt.prepare_user_turn(&mut reg, turn("s", "go on"), now).unwrap();
    let entry = &p2.messages[2];
    assert_eq!(entry[2].0, "tool_calls");
    assert_eq!(entry[2].1, r#"{"name":"search","arguments":{"q":"x"},"step_id":1}"#);
    // An unknown tool is refused.
    let err = rt.commit_llm_response(&mut reg, &p2, r#"{"action":"call_tool","tool":"delete"}"#, now)
        .unwrap_err();
    match err {
        AgentRunnerError::ToolFailed(m) => assert_eq!(m, "Unknown tool: 'delete'"),
        other => panic!("unexpected {:?}", other),
    }
    let logs = Logger::new("s").get_logs(&reg, &LogFilter::new());
    assert!(logs.entries.iter().any(|e| e.message == "Tool validation failed for 'delete': Unknown tool: 'delete'"));
}

#[test]
fn committing_a_retry_keeps_the_history_of_the_user() {
    let mut reg = LogRegistry::new();
    let mut rt = AgentRunnerRuntime::new_at(0);
    let now = antikythera::clock::now_unix_ms();
    let p = rt.prepare_user_turn(&mut reg, turn("s", "q"), now).unwrap();
    let c = rt.commit_llm_response(&mut reg, &p, r#"{"action":"retry","error":"bad format"}"#, now).unwrap();
    assert_eq!(c.action, "retry");
    assert_eq!(c.content.as_deref(), Some("bad format"));
    assert_eq!(c.fsm_state, "idle");
    assert_eq!(rt.get_state(&mut reg, "s").unwrap().message_history.len(), 1);
    assert_eq!(rt.get_telemetry_snapshot("s").counters.llm_retries, 1);
}

#[test]
fn streamed_chunks_are_committed_together() {
    let mut reg = LogRegistry::new();
    let mut rt = AgentRunnerRuntime::new_at(0);
    let now = antikythera::clock::now_unix_ms();
    let p = rt.prepare_user_turn(&mut reg, turn("s", "q"), now).unwrap();
    assert!(rt.append_llm_chunk(&mut reg, "s", "{\"action\":\"final\",", None));
    assert!(rt.append_llm_chunk(&mut reg, "s", "\"response\":\"done\"}", Some("c".to_string())));
    let events = rt.drain_events("s");
    assert_eq!(events.last().unwrap().kind, StreamEventKind::LlmChunk);
    assert_eq!(field(&events.last().unwrap().payload, "chunk"), s("\"response\":\"done\"}"));
    assert_eq!(rt.get_telemetry_snapshot("s").counters.llm_chunks, 2);
    let c = rt.commit_llm_stream(&mut reg, &p, now).unwrap();
    assert_eq!(c.content.as_deref(), Some("done"));
    // The streamed text is gone once committed.
    let p2 = rt.prepare_user_turn(&mut reg, turn("s", "again"), now).unwrap();
    let c2 = rt.commit_llm_stream(&mut reg, &p2, now).unwrap();
    assert_eq!(c2.content.as_deref(), Some(""));
}

#[test]
fn the_first_chunk_after_a_prepared_turn_starts_streaming() {
    let mut reg = LogRegistry::new();
    let mut rt = AgentRunnerRuntime::new_at(0);
    assert!(rt.append_llm_chunk(&mut reg, "fresh", "x", None));
    let state = rt.get_state(&mut reg, "fresh").unwrap();
    // A fresh session is idle: nothing to start.
    assert_eq!(state.fsm_state, AgentFsmState::Idle);
    assert_eq!(kinds(&rt.drain_events("fresh")), vec![StreamEventKind::LlmChunk]);
}

#[test]
fn reset_forgets_the_events_and_counters_of_a_session() {
    let mut reg = LogRegistry::new();
    let mut rt = AgentRunnerRuntime::new_at(0);
    let now = antikythera::clock::now_unix_ms();
    rt.prepare_user_turn(&mut reg, turn("a", "q"), now).unwrap();
    rt.prepare_user_turn(&mut reg, turn("b", "q"), now).unwrap();
    assert!(rt.reset_session("a"));
    assert_eq!(rt.get_telemetry_snapshot("a").counters.turns_prepared, 0);
    assert_eq!(rt.get_telemetry_snapshot("b").counters.turns_prepared, 1);
    assert!(rt.pending_events().iter().all(|e| e.session_id == "b"));
    assert_eq!(rt.pending_events().len(), 3);
}

#[test]
fn recorded_tool_results_are_counted_and_queued() {
    let mut reg = LogRegistry::new();
    let mut rt = AgentRunnerRuntime::new_at(0);
    let now = antikythera::clock::now_unix_ms();
    let p = rt.prepare_user_turn(&mut reg, turn("s", "find"), now).unwrap();
    rt.commit_llm_response(&mut reg, &p, r#"{"action":"call_tool","tool":"search"}"#, now).unwrap();
    rt.drain_events("s");
    let msg = rt
        .process_tool_result_for_session(
            &mut reg,
            "s",
            "search",
            false,
            JsonValue::Null,
            Some("boom".to_string()),
            Some("c-9".to_string()),
        )
        .unwrap();
    assert!(msg.contains("boom"));
    let events = rt.drain_events("s");
    assert_eq!(kinds(&events), vec![StreamEventKind::ToolResult]);
    assert_eq!(field(&events[0].payload, "tool"), s("search"));
    assert_eq!(field(&events[0].payload, "success"), JsonValue::Bool(false));
    assert_eq!(events[0].correlation_id.as_deref(), Some("c-9"));
    let t = rt.get_telemetry_snapshot("s").counters;
    assert_eq!((t.tool_results, t.tool_errors), (1, 1));
}

#[test]
fn new_session_ids_come_from_one_counter() {
    let mut reg = LogRegistry::new();
    let mut rt = AgentRunnerRuntime::new_at(0);
    let a = rt.new_session_id();
    let b = rt.configure(&mut reg, input(None)).unwrap();
    assert!(a.ends_with("-0"));
    assert!(b.ends_with("-1"));
    let now = antikythera::clock::now_unix_ms();
    let p = rt.prepare_user_turn(&mut reg, PrepareUserTurnInput { prompt: "q".to_string(), ..Default::default() }, now).unwrap();
    assert!(p.session_id.ends_with("-2"));
    assert!(rt.sessions().contains(&p.session_id));
}

#[test]
fn registering_no_tools_clears_the_prompt() {
    let mut reg = LogRegistry::new();
    let mut rt = AgentRunnerRuntime::new_at(0);
    rt.register_tools(&mut reg, vec![ToolDefinition { name: "a".to_string(), description: "x".to_string(), input_schema: None }]);
    assert_eq!(rt.register_tools(&mut reg, Vec::new()), 0);
    assert_eq!(rt.get_tools_prompt(), "");
    assert!(rt.known_tools().is_empty());
}
