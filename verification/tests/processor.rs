use antikythera::agent_types::{AgentConfig, AgentFsmState, AgentMessage, ContextSummary, ToolCall};
use antikythera::json::JsonValue;
use antikythera::log_entries::{LogFilter, LogLevel};
use antikythera::logger::{LogRegistry, Logger};
use antikythera::processor::{
    build_llm_messages, build_llm_messages_with_texts, tool_call_text, parse_final_response, parse_generic_tool_action, process_llm_response,
    process_parsed_llm_response, process_tool_result, process_tool_result_with_text,
    transition_and_log, AgentAction, AgentState,
};

fn s(t: &str) -> JsonValue {
    JsonValue::String(t.to_string())
}

fn obj(members: Vec<(&str, JsonValue)>) -> JsonValue {
    JsonValue::Object(members.into_iter().map(|(k, v)| (k.to_string(), v)).collect())
}

fn streaming_state() -> AgentState {
    let mut state = AgentState::new(AgentConfig::default_at(1_000));
    state.fsm_state = AgentFsmState::LlmStreaming;
    state
}

#[test]
fn new_state_is_idle_and_empty() {
    let state = AgentState::new(AgentConfig::default_at(1_000));
    assert_eq!(state.session_id, "session-1000");
    assert_eq!(state.current_step, 0);
    assert!(state.message_history.is_empty());
    assert_eq!(state.fsm_state, AgentFsmState::Idle);
    assert!(!state.is_max_steps_exceeded());
}

#[test]
fn tool_call_counts_a_step_and_requests_the_tool() {
    let mut reg = LogRegistry::new();
    let mut state = streaming_state();
    let parsed = obj(vec![
        ("action", s("call_tool")),
        ("tool", s("search")),
        ("input", obj(vec![("q", s("rust"))])),
    ]);
    let action = process_parsed_llm_response(&mut state, &mut reg, "{...}", Some(parsed)).unwrap();
    assert_eq!(
        action,
        AgentAction::CallTool { tool: "search".to_string(), input: obj(vec![("q", s("rust"))]) }
    );
    assert_eq!(state.current_step, 1);
    assert_eq!(state.fsm_state, AgentFsmState::ToolRequested);
    let logs = Logger::new("session-1000").get_logs(&reg, &LogFilter::new());
    assert_eq!(logs.total_count, 2);
    assert_eq!(logs.entries[0].message, "FSM transition: llm_streaming -> llm_committed | step=0");
    assert_eq!(logs.entries[1].message, "FSM transition: llm_committed -> tool_requested | step=1");
    assert_eq!(logs.entries[1].level, LogLevel::Debug);
    assert_eq!(logs.entries[1].source.as_deref(), Some("processor"));
}

#[test]
fn plain_text_is_a_final_answer() {
    let mut reg = LogRegistry::new();
    let mut state = streaming_state();
    let action = process_parsed_llm_response(&mut state, &mut reg, "Hello there", None).unwrap();
    assert_eq!(action, AgentAction::Final { response: s("Hello there") });
    assert_eq!(state.fsm_state, AgentFsmState::Final);
}

#[test]
fn final_and_retry_actions() {
    let mut reg = LogRegistry::new();
    let mut state = streaming_state();
    let parsed = obj(vec![("action", s("final")), ("content", s("done"))]);
    let action = process_parsed_llm_response(&mut state, &mut reg, "", Some(parsed)).unwrap();
    assert_eq!(action, AgentAction::Final { response: s("done") });

    let mut state = streaming_state();
    let parsed = obj(vec![("action", s("retry"))]);
    let action = process_parsed_llm_response(&mut state, &mut reg, "", Some(parsed)).unwrap();
    assert_eq!(action, AgentAction::Retry { error: "retry requested".to_string() });
    assert_eq!(state.fsm_state, AgentFsmState::Idle);
}

#[test]
fn response_without_action() {
    let mut reg = LogRegistry::new();
    let mut state = streaming_state();
    let parsed = obj(vec![("response", obj(vec![("answer", s("42"))]))]);
    let action = process_parsed_llm_response(&mut state, &mut reg, "", Some(parsed)).unwrap();
    assert_eq!(action, AgentAction::Final { response: obj(vec![("answer", s("42"))]) });

    let mut state = streaming_state();
    let parsed = obj(vec![("response", JsonValue::Array(vec![]))]);
    let err = process_parsed_llm_response(&mut state, &mut reg, "", Some(parsed)).unwrap_err();
    assert!(err.starts_with("Could not derive action from LLM response."));
    assert_eq!(state.fsm_state, AgentFsmState::LlmCommitted);
}

#[test]
fn malformed_actions_are_errors() {
    assert_eq!(
        parse_generic_tool_action(obj(vec![("action", s("call_tool"))])),
        Err("Missing 'tool' field".to_string())
    );
    assert_eq!(
        parse_generic_tool_action(obj(vec![("action", s("final"))])),
        Err("Missing 'response' field".to_string())
    );
    assert_eq!(
        parse_generic_tool_action(obj(vec![("action", s("dance"))])),
        Err("Unknown action: dance".to_string())
    );
    assert_eq!(parse_generic_tool_action(obj(vec![("tool", s("x"))])), Ok(None));
    assert_eq!(
        parse_generic_tool_action(obj(vec![("action", s("call_tool")), ("tool", s("t"))])),
        Ok(Some(AgentAction::CallTool { tool: "t".to_string(), input: obj(vec![]) }))
    );
    assert_eq!(parse_final_response(obj(vec![("content", s("c"))])), Some(s("c")));
    assert_eq!(parse_final_response(obj(vec![])), None);
}

#[test]
fn step_limit_and_state_checks() {
    let mut reg = LogRegistry::new();
    let mut state = streaming_state();
    state.current_step = 10;
    assert!(state.is_max_steps_exceeded());
    assert_eq!(
        process_parsed_llm_response(&mut state, &mut reg, "x", None).unwrap_err(),
        "Max steps exceeded: 10 >= 10"
    );
    let mut idle = AgentState::new(AgentConfig::default_at(1));
    assert_eq!(
        process_parsed_llm_response(&mut idle, &mut reg, "x", None).unwrap_err(),
        "invalid FSM transition: idle → llm_committed"
    );
    assert_eq!(reg.logger_count(), 0);
}

#[test]
fn tool_results_are_recorded() {
    let mut reg = LogRegistry::new();
    let mut state = AgentState::new(AgentConfig::default_at(5));
    state.fsm_state = AgentFsmState::ToolRequested;
    let text = process_tool_result_with_text(
        &mut state,
        &mut reg,
        "search",
        true,
        obj(vec![("hits", JsonValue::Number("3".to_string()))]),
        "{\n  \"hits\": 3\n}",
        None,
    )
    .unwrap();
    assert_eq!(text, "Tool 'search' executed successfully.\nResult: {\n  \"hits\": 3\n}");
    assert_eq!(state.current_step, 1);
    assert_eq!(state.fsm_state, AgentFsmState::ToolResultProcessed);
    assert_eq!(state.tool_results.len(), 1);
    assert_eq!(state.tool_results[0].1, obj(vec![("hits", JsonValue::Number("3".to_string()))]));
    let msg = &state.message_history[0];
    assert_eq!(msg.role, "tool");
    assert_eq!(msg.tool_result.as_ref().unwrap().step_id, 1);

    // A failure records the error object; a second result of the same tool replaces the first.
    state.fsm_state = AgentFsmState::ToolRequested;
    let text = process_tool_result_with_text(&mut state, &mut reg, "search", false, JsonValue::Null, "null", None)
        .unwrap();
    assert_eq!(text, "Tool 'search' failed.\nError: Unknown error");
    assert_eq!(state.tool_results.len(), 1);
    assert_eq!(state.tool_results[0].1, obj(vec![("error", s("Unknown error"))]));
    assert_eq!(state.current_step, 2);

    // Out of order, the result is recorded but the move fails.
    let err = process_tool_result_with_text(&mut state, &mut reg, "other", false, JsonValue::Null, "", Some("boom".to_string()))
        .unwrap_err();
    assert_eq!(err, "invalid FSM transition: tool_result_processed → tool_result_processed");
    assert_eq!(state.message_history.len(), 3);
}

#[test]
fn transitions_are_logged() {
    let mut reg = LogRegistry::new();
    let mut state = AgentState::new(AgentConfig::default_at(9));
    assert!(transition_and_log(&mut state, &mut reg, AgentFsmState::Idle, AgentFsmState::UserTurnPrepared).is_ok());
    assert!(transition_and_log(&mut state, &mut reg, AgentFsmState::Idle, AgentFsmState::Final).is_err());
    let logs = Logger::new("session-9").get_logs(&reg, &LogFilter::new());
    assert_eq!(logs.total_count, 1);
    assert_eq!(logs.entries[0].message, "FSM transition: idle -> user_turn_prepared | step=0");
}

fn pair(k: &str, v: &str) -> (String, String) {
    (k.to_string(), v.to_string())
}

#[test]
fn llm_messages_open_with_the_system_prompt_then_history() {
    let mut state = AgentState::new(AgentConfig::default_at(1_000));
    state.message_history.push(AgentMessage {
        role: "user".to_string(),
        content: "hi".to_string(),
        tool_call: None,
        tool_result: None,
    });
    state.message_history.push(AgentMessage {
        role: "assistant".to_string(),
        content: "calling".to_string(),
        tool_call: Some(ToolCall { name: "search".to_string(), arguments: obj(vec![]), step_id: 0 }),
        tool_result: None,
    });
    let texts = vec![String::new(), "{\"name\":\"search\",\"arguments\":{}}".to_string()];
    let msgs = build_llm_messages_with_texts("be brief", &state, &texts);
    assert_eq!(
        msgs,
        vec![
            vec![pair("role", "system"), pair("content", "be brief")],
            vec![pair("role", "user"), pair("content", "hi")],
            vec![
                pair("role", "assistant"),
                pair("content", "calling"),
                pair("tool_calls", "{\"name\":\"search\",\"arguments\":{}}"),
            ],
        ]
    );
}

#[test]
fn llm_messages_carry_the_rolling_summary_after_the_prompt() {
    let mut state = AgentState::new(AgentConfig::default_at(1_000));
    state.rolling_summary = Some(ContextSummary {
        version: 3,
        text: "talked about cats".to_string(),
        source_messages: 7,
    });
    let msgs = build_llm_messages_with_texts("sys", &state, &Vec::new());
    assert_eq!(msgs.len(), 2);
    assert_eq!(
        msgs[1],
        vec![pair("role", "system"), pair("content", "Conversation summary v3: talked about cats")]
    );
}

#[test]
fn raw_responses_are_read_as_json_or_as_text() {
    let mut reg = LogRegistry::new();
    let mut state = streaming_state();
    let action = process_llm_response(
        &mut state,
        &mut reg,
        r#"{"action": "call_tool", "tool": "search", "input": {"q": "x"}}"#,
    )
    .unwrap();
    assert_eq!(
        action,
        AgentAction::CallTool { tool: "search".to_string(), input: obj(vec![("q", s("x"))]) }
    );
    let mut state = streaming_state();
    let action = process_llm_response(&mut state, &mut reg, "just words").unwrap();
    assert_eq!(action, AgentAction::Final { response: s("just words") });
}

#[test]
fn tool_outputs_are_written_as_indented_json() {
    let mut reg = LogRegistry::new();
    let mut state = AgentState::new(AgentConfig::default_at(1_000));
    state.fsm_state = AgentFsmState::ToolRequested;
    let text = process_tool_result(
        &mut state,
        &mut reg,
        "search",
        true,
        obj(vec![("hits", JsonValue::Number("2".to_string()))]),
        None,
    )
    .unwrap();
    assert_eq!(text, "Tool 'search' executed successfully.\nResult: {\n  \"hits\": 2\n}");
}

#[test]
fn tool_calls_are_written_as_compact_json_in_order() {
    let call = ToolCall {
        name: "se\"arch".to_string(),
        arguments: obj(vec![("q", JsonValue::String("x y".to_string()))]),
        step_id: 4,
    };
    assert_eq!(tool_call_text(&call), r#"{"name":"se\"arch","arguments":{"q":"x y"},"step_id":4}"#);
}

#[test]
fn llm_messages_write_the_tool_calls_of_the_history() {
    let mut state = AgentState::new(AgentConfig::default_at(1_000));
    state.message_history.push(AgentMessage {
        role: "assistant".to_string(),
        content: "call_tool:search".to_string(),
        tool_call: Some(ToolCall { name: "search".to_string(), arguments: obj(vec![]), step_id: 2 }),
        tool_result: None,
    });
    let msgs = build_llm_messages("sys", &state);
    assert_eq!(msgs.len(), 2);
    assert_eq!(
        msgs[1],
        vec![
            pair("role", "assistant"),
            pair("content", "call_tool:search"),
            pair("tool_calls", r#"{"name":"search","arguments":{},"step_id":2}"#),
        ]
    );
}
