//! How the agent processes a model response and a tool result: the action
//! a response asks for, the state machine moves (each one logged), the
//! step count and the conversation history.
//!
//! The model's output must already be in the framework's generic form: a
//! JSON object whose `action` is `call_tool` (with `tool` and `input`),
//! `final` (with `response`, or `content`) or `retry` (with `error`), a
//! JSON object with a `response` or `content`, or plain text.
use vstd::prelude::*;
use crate::agent_types::{
    to_core, transition_allowed, AgentConfig, AgentFsmState, AgentMessage, ContextSummary,
    ToolCall, ToolResult,
};
use crate::assoc::{key_index, lemma_key_pos, lemma_lookup_after_push, lemma_lookup_after_set, lookup};
use crate::fsm::{state_name, transition_error_text};
use crate::json_value::{compact_json, json_parse, parse_json, pretty_json, to_compact, to_pretty};
use crate::json::{copy_json, field, get_field, get_str_field, json_same, str_field, take_field, JsonValue};
use crate::log_entries::LogLevel;
use crate::logger::{LogRegistry, Logger};
use crate::text::{copy_string, decimal, push_decimal, push_str, str_eq, string_of};

verus! {

/// What the agent does next.
#[derive(Debug, PartialEq)]
pub enum AgentAction {
    /// Call tool `tool` with `input`.
    CallTool { tool: String, input: JsonValue },
    /// Answer the user with `response`.
    Final { response: JsonValue },
    /// Ask the model again, because of `error`.
    Retry { error: String },
}

/// The state of one agent session.
#[derive(Debug)]
pub struct AgentState {
    pub session_id: String,
    /// Number of steps taken (tool calls requested and results recorded).
    pub current_step: u32,
    pub message_history: Vec<AgentMessage>,
    /// Latest result of each tool, by tool name.
    pub tool_results: Vec<(String, JsonValue)>,
    pub config: AgentConfig,
    pub rolling_summary: Option<ContextSummary>,
    pub fsm_state: AgentFsmState,
}

impl AgentState {
    /// A fresh session for `config`: no history, no results, step 0, idle.
    pub fn new(config: AgentConfig) -> (s: AgentState)
        ensures
            s.session_id@ == config.session_id@,
            s.current_step == 0,
            s.message_history@.len() == 0,
            s.tool_results@.len() == 0,
            s.config == config,
            s.rolling_summary is None,
            s.fsm_state == AgentFsmState::Idle,
    {
        AgentState {
            session_id: config.session_id.clone(),
            current_step: 0,
            message_history: Vec::new(),
            tool_results: Vec::new(),
            config,
            rolling_summary: None,
            fsm_state: AgentFsmState::initial(),
        }
    }

    /// Appends `message` to the history.
    pub fn add_message(&mut self, message: AgentMessage)
        ensures
            final(self).message_history@ == old(self).message_history@.push(message),
            final(self).session_id == old(self).session_id,
            final(self).current_step == old(self).current_step,
            final(self).tool_results == old(self).tool_results,
            final(self).config == old(self).config,
            final(self).rolling_summary == old(self).rolling_summary,
            final(self).fsm_state == old(self).fsm_state,
    {
        self.message_history.push(message);
    }

    /// Records `result` as the latest result of tool `tool_name` and counts
    /// a step.
    pub fn record_tool_result(&mut self, tool_name: String, result: JsonValue)
        requires
            old(self).current_step < u32::MAX,
        ensures
            forall|k: Seq<char>|
                #![trigger lookup(final(self).tool_results@, k)]
                lookup(final(self).tool_results@, k) == if k == tool_name@ {
                    Some(result)
                } else {
                    lookup(old(self).tool_results@, k)
                },
            final(self).current_step == old(self).current_step + 1,
            final(self).session_id == old(self).session_id,
            final(self).message_history == old(self).message_history,
            final(self).config == old(self).config,
            final(self).rolling_summary == old(self).rolling_summary,
            final(self).fsm_state == old(self).fsm_state,
    {
        let i = key_index(&self.tool_results, tool_name.as_str());
        proof {
            lemma_key_pos(self.tool_results@, tool_name@);
        }
        let ghost before = self.tool_results@;
        let e = (tool_name, result);
        let ghost ge = e;
        if i < self.tool_results.len() {
            self.tool_results.set(i, e);
            proof {
                lemma_lookup_after_set(before, i as int, ge);
            }
        } else {
            self.tool_results.push(e);
            proof {
                lemma_lookup_after_push(before, ge);
            }
        }
        self.current_step = self.current_step + 1;
    }

    /// Whether the session has used up its steps.
    pub fn is_max_steps_exceeded(&self) -> (r: bool)
        ensures
            r == (self.current_step >= self.config.max_steps),
    {
        self.current_step >= self.config.max_steps
    }
}

/// The debug message logged for a state machine move.
pub open spec fn transition_log_text(from: AgentFsmState, to: AgentFsmState, step: u32) -> Seq<char> {
    "FSM transition: "@ + state_name(to_core(from)) + " -> "@ + state_name(to_core(to))
        + " | step="@ + decimal(step as nat)
}

/// `state` with its machine moved to `to`, nothing else changed.
pub open spec fn with_fsm(state: AgentState, to: AgentFsmState) -> AgentState {
    AgentState { fsm_state: to, ..state }
}

/// Moves the session's machine to `to` and logs the move (debug, source
/// `processor`, naming `from` as the state left); on a move the machine
/// does not allow, fails with the transition error and changes nothing.
pub fn transition_and_log(
    state: &mut AgentState,
    reg: &mut LogRegistry,
    from: AgentFsmState,
    to: AgentFsmState,
) -> (r: Result<(), String>)
    requires
        old(reg).wf(),
    ensures
        final(reg).wf(),
        transition_allowed(old(state).fsm_state, to) ==> {
            &&& r is Ok
            &&& *final(state) == with_fsm(*old(state), to)
            &&& old(reg)@.logged_at_some_time(
                final(reg)@,
                old(state).session_id@,
                LogLevel::Debug,
                transition_log_text(from, to, old(state).current_step),
                Some("processor"@),
                None,
            )
        },
        !transition_allowed(old(state).fsm_state, to) ==> {
            &&& r matches Err(e) && e@ == transition_error_text(
                to_core(old(state).fsm_state),
                to_core(to),
            )
            &&& *final(state) == *old(state)
            &&& final(reg)@ == old(reg)@
        },
{
    match state.fsm_state.transition_to(to) {
        Ok(()) => {
            let mut m = string_of("FSM transition: ");
            push_str(&mut m, from.to_string().as_str());
            push_str(&mut m, " -> ");
            push_str(&mut m, to.to_string().as_str());
            push_str(&mut m, " | step=");
            push_decimal(&mut m, state.current_step as u64);
            Logger::new(state.session_id.as_str()).log_with_source(
                reg,
                LogLevel::Debug,
                "processor",
                m.as_str(),
            );
            Ok(())
        },
        Err(e) => Err(e.to_string()),
    }
}

/// What a model response asks the agent to do.
pub enum ActionPlan {
    /// Call `tool` with the given input (an empty object when absent).
    CallTool { tool: Seq<char>, input: Option<JsonValue> },
    /// Answer with this JSON value.
    Final { response: JsonValue },
    /// Answer with the response text itself (it was not JSON).
    FinalText,
    /// Ask the model again because of `error`.
    Retry { error: Seq<char> },
    /// The response is unusable for this reason.
    Fail { message: Seq<char> },
}

/// The member `response` of `p`, or else its member `content`.
pub open spec fn response_or_content(p: JsonValue) -> Option<JsonValue> {
    match field(p, "response"@) {
        Some(v) => Some(v),
        None => field(p, "content"@),
    }
}

/// The plan of a response in the generic action form, or `None` when `p`
/// names no action.
pub open spec fn generic_plan(p: JsonValue) -> Option<ActionPlan> {
    match str_field(p, "action"@) {
        None => None,
        Some(a) => Some(
            if a == "call_tool"@ {
                match str_field(p, "tool"@) {
                    Some(t) => ActionPlan::CallTool { tool: t, input: field(p, "input"@) },
                    None => ActionPlan::Fail { message: "Missing 'tool' field"@ },
                }
            } else if a == "final"@ {
                match response_or_content(p) {
                    Some(v) => ActionPlan::Final { response: v },
                    None => ActionPlan::Fail { message: "Missing 'response' field"@ },
                }
            } else if a == "retry"@ {
                ActionPlan::Retry {
                    error: match str_field(p, "error"@) {
                        Some(e) => e,
                        None => "retry requested"@,
                    },
                }
            } else {
                ActionPlan::Fail { message: "Unknown action: "@ + a }
            },
        ),
    }
}

/// The final answer a response without an action carries: its `response`
/// (or else `content`) member, unless that is an array.
pub open spec fn final_response_of(p: JsonValue) -> Option<JsonValue> {
    match response_or_content(p) {
        Some(v) => if v is Array {
            None
        } else {
            Some(v)
        },
        None => None,
    }
}

/// The error for a response from which no action can be derived.
pub open spec fn underivable_text() -> Seq<char> {
    "Could not derive action from LLM response. Host must normalize provider-native output to the framework generic JSON format."@
}

/// The plan of a model response: `parsed` is its parse as JSON, `None`
/// when it is not JSON.
pub open spec fn plan_of(parsed: Option<JsonValue>) -> ActionPlan {
    match parsed {
        None => ActionPlan::FinalText,
        Some(p) => match generic_plan(p) {
            Some(plan) => plan,
            None => match final_response_of(p) {
                Some(v) => ActionPlan::Final { response: v },
                None => ActionPlan::Fail { message: underivable_text() },
            },
        },
    }
}

/// Whether action `a` carries out `plan`; `content` is the response text.
pub open spec fn action_fits(a: AgentAction, plan: ActionPlan, content: Seq<char>) -> bool {
    match plan {
        ActionPlan::CallTool { tool, input } => a matches AgentAction::CallTool { tool: t, input: i }
            && t@ == tool && match input {
            Some(v) => i == v,
            None => i matches JsonValue::Object(m) && m@.len() == 0,
        },
        ActionPlan::Final { response } => a == AgentAction::Final { response },
        ActionPlan::FinalText => a matches AgentAction::Final { response: JsonValue::String(t) }
            && t@ == content,
        ActionPlan::Retry { error } => a matches AgentAction::Retry { error: e } && e@ == error,
        ActionPlan::Fail { .. } => false,
    }
}

/// The state the machine reaches when carrying out `plan`.
pub open spec fn plan_target(plan: ActionPlan) -> AgentFsmState {
    match plan {
        ActionPlan::CallTool { .. } => AgentFsmState::ToolRequested,
        ActionPlan::Final { .. } => AgentFsmState::Final,
        ActionPlan::FinalText => AgentFsmState::Final,
        ActionPlan::Retry { .. } => AgentFsmState::Idle,
        ActionPlan::Fail { .. } => AgentFsmState::LlmCommitted,
    }
}

/// Reads the action of a response in the generic form: `None` when it
/// names no action, the action, or an error for a malformed one.
pub fn parse_generic_tool_action(parsed: JsonValue) -> (r: Result<Option<AgentAction>, String>)
    ensures
        match generic_plan(parsed) {
            None => r matches Ok(None),
            Some(ActionPlan::Fail { message }) => r matches Err(e) && e@ == message,
            Some(plan) => r matches Ok(Some(a)) && action_fits(a, plan, Seq::empty()),
        },
{
    let action = match get_str_field(&parsed, "action") {
        None => {
            return Ok(None);
        },
        Some(a) => a.clone(),
    };
    if str_eq(action.as_str(), "call_tool") {
        let tool = match get_str_field(&parsed, "tool") {
            Some(t) => t.clone(),
            None => {
                return Err(string_of("Missing 'tool' field"));
            },
        };
        let input = match take_field(parsed, "input") {
            Some(v) => v,
            None => JsonValue::Object(Vec::new()),
        };
        Ok(Some(AgentAction::CallTool { tool, input }))
    } else if str_eq(action.as_str(), "final") {
        let has_response = get_field(&parsed, "response").is_some();
        let response = if has_response {
            take_field(parsed, "response")
        } else {
            take_field(parsed, "content")
        };
        match response {
            Some(v) => Ok(Some(AgentAction::Final { response: v })),
            None => Err(string_of("Missing 'response' field")),
        }
    } else if str_eq(action.as_str(), "retry") {
        let error = match get_str_field(&parsed, "error") {
            Some(e) => e.clone(),
            None => string_of("retry requested"),
        };
        Ok(Some(AgentAction::Retry { error }))
    } else {
        let mut e = string_of("Unknown action: ");
        push_str(&mut e, action.as_str());
        Err(e)
    }
}

/// The final answer of a response without an action: its `response` (or
/// else `content`) member, unless that is an array.
pub fn parse_final_response(parsed: JsonValue) -> (r: Option<JsonValue>)
    ensures
        r == final_response_of(parsed),
{
    let has_response = get_field(&parsed, "response").is_some();
    let v = if has_response {
        take_field(parsed, "response")
    } else {
        take_field(parsed, "content")
    };
    match v {
        Some(JsonValue::Array(a)) => None,
        other => other,
    }
}

/// The error for a session out of steps.
pub open spec fn max_steps_text(step: u32, max: u32) -> Seq<char> {
    "Max steps exceeded: "@ + decimal(step as nat) + " >= "@ + decimal(max as nat)
}

/// `state` after carrying out `plan` from a committed response: the new
/// machine state, and one more step for a tool call.
pub open spec fn after_plan(state: AgentState, plan: ActionPlan) -> AgentState {
    AgentState {
        fsm_state: plan_target(plan),
        current_step: if plan is CallTool {
            (state.current_step + 1) as u32
        } else {
            state.current_step
        },
        ..state
    }
}

/// Whether `after` and `r` are what processing the model response
/// `content` (parsed as `parsed`) makes of the session state `before`.
pub open spec fn llm_processed(
    before: AgentState,
    after: AgentState,
    content: Seq<char>,
    parsed: Option<JsonValue>,
    r: Result<AgentAction, String>,
) -> bool {
    if before.current_step >= before.config.max_steps {
        &&& r matches Err(e) && e@ == max_steps_text(before.current_step, before.config.max_steps)
        &&& after == before
    } else if before.fsm_state != AgentFsmState::LlmStreaming {
        &&& r matches Err(e) && e@ == transition_error_text(
            to_core(before.fsm_state),
            to_core(AgentFsmState::LlmCommitted),
        )
        &&& after == before
    } else {
        let plan = plan_of(parsed);
        &&& after == after_plan(before, plan)
        &&& match plan {
            ActionPlan::Fail { message } => r matches Err(e) && e@ == message,
            _ => r matches Ok(a) && action_fits(a, plan, content),
        }
    }
}

/// The parse of a model response: its JSON value, or none when it is not
/// JSON.
pub open spec fn parsed_response(content: Seq<char>) -> Option<JsonValue> {
    match json_parse(content) {
        Ok(v) => Some(v),
        Err(_) => None,
    }
}

/// Turns a model response into the agent's next action, the response being
/// read as JSON when it is JSON (see [`process_parsed_llm_response`]).
pub fn process_llm_response(
    state: &mut AgentState,
    reg: &mut LogRegistry,
    llm_response_content: &str,
) -> (r: Result<AgentAction, String>)
    requires
        old(reg).wf(),
    ensures
        final(reg).wf(),
        llm_processed(*old(state), *final(state), llm_response_content@, parsed_response(llm_response_content@), r),
        old(state).current_step >= old(state).config.max_steps ==> {
            &&& r matches Err(e) && e@ == max_steps_text(
                old(state).current_step,
                old(state).config.max_steps,
            )
            &&& *final(state) == *old(state)
            &&& final(reg)@ == old(reg)@
        },
        old(state).current_step < old(state).config.max_steps && old(state).fsm_state
            != AgentFsmState::LlmStreaming ==> {
            &&& r matches Err(e) && e@ == transition_error_text(
                to_core(old(state).fsm_state),
                to_core(AgentFsmState::LlmCommitted),
            )
            &&& *final(state) == *old(state)
            &&& final(reg)@ == old(reg)@
        },
        old(state).current_step < old(state).config.max_steps && old(state).fsm_state
            == AgentFsmState::LlmStreaming ==> {
            let plan = plan_of(parsed_response(llm_response_content@));
            let sid = old(state).session_id@;
            &&& *final(state) == after_plan(*old(state), plan)
            &&& match plan {
                ActionPlan::Fail { message } => r matches Err(e) && e@ == message,
                _ => r matches Ok(a) && action_fits(a, plan, llm_response_content@),
            }
            &&& exists|mid: crate::logger::RegistryState|
                {
                    &&& old(reg)@.logged_at_some_time(
                        mid,
                        sid,
                        LogLevel::Debug,
                        transition_log_text(
                            AgentFsmState::LlmStreaming,
                            AgentFsmState::LlmCommitted,
                            old(state).current_step,
                        ),
                        Some("processor"@),
                        None,
                    )
                    &&& plan is Fail ==> final(reg)@ == mid
                    &&& !(plan is Fail) ==> mid.logged_at_some_time(
                        final(reg)@,
                        sid,
                        LogLevel::Debug,
                        transition_log_text(
                            AgentFsmState::LlmCommitted,
                            plan_target(plan),
                            after_plan(*old(state), plan).current_step,
                        ),
                        Some("processor"@),
                        None,
                    )
                }
        },
{
    let parsed = match parse_json(llm_response_content) {
        Ok(v) => Some(v),
        Err(_) => None,
    };
    process_parsed_llm_response(state, reg, llm_response_content, parsed)
}

/// Turns a model response into the agent's next action.
///
/// `llm_response_content` is the response text and `parsed` its parse as
/// JSON (`None` when it is not JSON).  A session out of steps fails.  The
/// machine, which must be streaming, commits the response; then a tool
/// call counts a step and moves to `ToolRequested`, a final answer to
/// `Final` and a retry to `Idle`.  Plain text is a final answer.  Each move
/// is logged to the session's log.
pub fn process_parsed_llm_response(
    state: &mut AgentState,
    reg: &mut LogRegistry,
    llm_response_content: &str,
    parsed: Option<JsonValue>,
) -> (r: Result<AgentAction, String>)
    requires
        old(reg).wf(),
    ensures
        final(reg).wf(),
        llm_processed(*old(state), *final(state), llm_response_content@, parsed, r),
        old(state).current_step >= old(state).config.max_steps ==> {
            &&& r matches Err(e) && e@ == max_steps_text(
                old(state).current_step,
                old(state).config.max_steps,
            )
            &&& *final(state) == *old(state)
            &&& final(reg)@ == old(reg)@
        },
        old(state).current_step < old(state).config.max_steps && old(state).fsm_state
            != AgentFsmState::LlmStreaming ==> {
            &&& r matches Err(e) && e@ == transition_error_text(
                to_core(old(state).fsm_state),
                to_core(AgentFsmState::LlmCommitted),
            )
            &&& *final(state) == *old(state)
            &&& final(reg)@ == old(reg)@
        },
        old(state).current_step < old(state).config.max_steps && old(state).fsm_state
            == AgentFsmState::LlmStreaming ==> {
            let plan = plan_of(parsed);
            let sid = old(state).session_id@;
            &&& *final(state) == after_plan(*old(state), plan)
            &&& match plan {
                ActionPlan::Fail { message } => r matches Err(e) && e@ == message,
                _ => r matches Ok(a) && action_fits(a, plan, llm_response_content@),
            }
            &&& exists|mid: crate::logger::RegistryState|
                {
                    &&& old(reg)@.logged_at_some_time(
                        mid,
                        sid,
                        LogLevel::Debug,
                        transition_log_text(
                            AgentFsmState::LlmStreaming,
                            AgentFsmState::LlmCommitted,
                            old(state).current_step,
                        ),
                        Some("processor"@),
                        None,
                    )
                    &&& plan is Fail ==> final(reg)@ == mid
                    &&& !(plan is Fail) ==> mid.logged_at_some_time(
                        final(reg)@,
                        sid,
                        LogLevel::Debug,
                        transition_log_text(
                            AgentFsmState::LlmCommitted,
                            plan_target(plan),
                            after_plan(*old(state), plan).current_step,
                        ),
                        Some("processor"@),
                        None,
                    )
                }
        },
{
    if state.current_step >= state.config.max_steps {
        let mut e = string_of("Max steps exceeded: ");
        push_decimal(&mut e, state.current_step as u64);
        push_str(&mut e, " >= ");
        push_decimal(&mut e, state.config.max_steps as u64);
        return Err(e);
    }
    let ghost s0 = *state;
    let ghost r0 = reg@;
    match transition_and_log(state, reg, AgentFsmState::LlmStreaming, AgentFsmState::LlmCommitted) {
        Err(e) => {
            return Err(e);
        },
        Ok(()) => {},
    }
    let ghost mid = reg@;
    let ghost plan = plan_of(parsed);
    match parsed {
        None => {
            match transition_and_log(state, reg, AgentFsmState::LlmCommitted, AgentFsmState::Final) {
                Err(e) => {
                    return Err(e);
                },
                Ok(()) => {},
            }
            assert(*state == after_plan(s0, plan));
            Ok(AgentAction::Final { response: JsonValue::String(string_of(llm_response_content)) })
        },
        Some(p) => {
            let has_action = get_str_field(&p, "action").is_some();
            if has_action {
                match parse_generic_tool_action(p) {
                    Err(e) => {
                        assert(*state == after_plan(s0, plan));
                        Err(e)
                    },
                    Ok(None) => {
                        assert(false);
                        Err(string_of("Missing action"))
                    },
                    Ok(Some(action)) => {
                        let target = match &action {
                            AgentAction::CallTool { .. } => {
                                state.current_step = state.current_step + 1;
                                AgentFsmState::ToolRequested
                            },
                            AgentAction::Final { .. } => AgentFsmState::Final,
                            AgentAction::Retry { .. } => AgentFsmState::Idle,
                        };
                        match transition_and_log(state, reg, AgentFsmState::LlmCommitted, target) {
                            Err(e) => {
                                return Err(e);
                            },
                            Ok(()) => {},
                        }
                        assert(*state == after_plan(s0, plan));
                        Ok(action)
                    },
                }
            } else {
                match parse_final_response(p) {
                    Some(v) => {
                        match transition_and_log(
                            state,
                            reg,
                            AgentFsmState::LlmCommitted,
                            AgentFsmState::Final,
                        ) {
                            Err(e) => {
                                return Err(e);
                            },
                            Ok(()) => {},
                        }
                        assert(*state == after_plan(s0, plan));
                        Ok(AgentAction::Final { response: v })
                    },
                    None => {
                        assert(*state == after_plan(s0, plan));
                        Err(
                            string_of(
                                "Could not derive action from LLM response. Host must normalize provider-native output to the framework generic JSON format.",
                            ),
                        )
                    },
                }
            }
        },
    }
}

/// The text of the tool message for a result: `output_text` is the
/// rendering of the output.
pub open spec fn tool_message_text(
    tool_name: Seq<char>,
    success: bool,
    output_text: Seq<char>,
    error: Option<String>,
) -> Seq<char> {
    if success {
        "Tool '"@ + tool_name + "' executed successfully.\nResult: "@ + output_text
    } else {
        "Tool '"@ + tool_name + "' failed.\nError: "@ + error_or_unknown(error)
    }
}

/// Whether `v` is the object `{"error": msg}`.
pub open spec fn is_error_object(v: JsonValue, msg: Seq<char>) -> bool {
    match v {
        JsonValue::Object(m) => m@.len() == 1 && m@[0].0@ == "error"@ && match m@[0].1 {
            JsonValue::String(t) => t@ == msg,
            _ => false,
        },
        _ => false,
    }
}

/// The error text of a failed tool, `Unknown error` when it gave none.
pub open spec fn error_or_unknown(error: Option<String>) -> Seq<char> {
    match error {
        Some(e) => e@,
        None => "Unknown error"@,
    }
}

/// Whether `after` and `r` are what recording the result of tool
/// `tool_name` makes of the session state `before` (see
/// [`process_tool_result`]).
pub open spec fn tool_processed(
    before: AgentState,
    after: AgentState,
    tool_name: Seq<char>,
    success: bool,
    output: JsonValue,
    output_text: Seq<char>,
    error: Option<String>,
    r: Result<String, String>,
) -> bool {
    &&& after.current_step == before.current_step + 1
    &&& after.session_id == before.session_id
    &&& after.config == before.config
    &&& after.rolling_summary == before.rolling_summary
    &&& forall|k: Seq<char>|
        #![trigger lookup(after.tool_results@, k)]
        k != tool_name ==> lookup(after.tool_results@, k) == lookup(before.tool_results@, k)
    &&& lookup(after.tool_results@, tool_name) matches Some(v) && if success {
        json_same(output, v)
    } else {
        is_error_object(v, error_or_unknown(error))
    }
    &&& after.message_history@.len() == before.message_history@.len() + 1
    &&& after.message_history@.drop_last() == before.message_history@
    &&& ({
        let m = after.message_history@.last();
        &&& m.role@ == "tool"@
        &&& m.content@ == tool_message_text(tool_name, success, output_text, error)
        &&& m.tool_call is None
        &&& m.tool_result matches Some(tr) && tr.name@ == tool_name && tr.success == success
            && tr.output == output && tr.error == error && tr.step_id == after.current_step
    })
    &&& before.fsm_state == AgentFsmState::ToolRequested ==> {
        &&& after.fsm_state == AgentFsmState::ToolResultProcessed
        &&& r matches Ok(t) && t@ == tool_message_text(tool_name, success, output_text, error)
    }
    &&& before.fsm_state != AgentFsmState::ToolRequested ==> {
        &&& after.fsm_state == before.fsm_state
        &&& r matches Err(e) && e@ == transition_error_text(
            to_core(before.fsm_state),
            to_core(AgentFsmState::ToolResultProcessed),
        )
    }
}

/// Records the result of tool `tool_name`, a successful output being
/// written as indented JSON (see [`process_tool_result_with_text`]).
pub fn process_tool_result(
    state: &mut AgentState,
    reg: &mut LogRegistry,
    tool_name: &str,
    success: bool,
    output: JsonValue,
    error: Option<String>,
) -> (r: Result<String, String>)
    requires
        old(reg).wf(),
        old(state).current_step < u32::MAX,
    ensures
        final(reg).wf(),
        tool_processed(
            *old(state),
            *final(state),
            tool_name@,
            success,
            output,
            pretty_json(output),
            error,
            r,
        ),
        old(state).fsm_state == AgentFsmState::ToolRequested ==> old(reg)@.logged_at_some_time(
            final(reg)@,
            old(state).session_id@,
            LogLevel::Debug,
            transition_log_text(
                AgentFsmState::ToolRequested,
                AgentFsmState::ToolResultProcessed,
                final(state).current_step,
            ),
            Some("processor"@),
            None,
        ),
        old(state).fsm_state != AgentFsmState::ToolRequested ==> final(reg)@ == old(reg)@,
{
    let text = to_pretty(&output);
    process_tool_result_with_text(state, reg, tool_name, success, output, text.as_str(), error)
}

/// Records the result of tool `tool_name` and adds the tool message to the
/// history.
///
/// The result recorded for the tool is (a copy of) `output` on success, or
/// the object `{"error": <error>}` on failure; this counts a step.  The
/// tool message carries the text, the output, the error and the new step;
/// its text shows `output_text`, the rendering of `output`.  Then the
/// machine moves from `ToolRequested` to `ToolResultProcessed` (logged);
/// from any other state the move fails, after the result and the message
/// were recorded.
pub fn process_tool_result_with_text(
    state: &mut AgentState,
    reg: &mut LogRegistry,
    tool_name: &str,
    success: bool,
    output: JsonValue,
    output_text: &str,
    error: Option<String>,
) -> (r: Result<String, String>)
    requires
        old(reg).wf(),
        old(state).current_step < u32::MAX,
    ensures
        final(reg).wf(),
        tool_processed(
            *old(state),
            *final(state),
            tool_name@,
            success,
            output,
            output_text@,
            error,
            r,
        ),
        old(state).fsm_state == AgentFsmState::ToolRequested ==> old(reg)@.logged_at_some_time(
            final(reg)@,
            old(state).session_id@,
            LogLevel::Debug,
            transition_log_text(
                AgentFsmState::ToolRequested,
                AgentFsmState::ToolResultProcessed,
                final(state).current_step,
            ),
            Some("processor"@),
            None,
        ),
        old(state).fsm_state != AgentFsmState::ToolRequested ==> final(reg)@ == old(reg)@,
{
    let err_text = match &error {
        Some(e) => e.clone(),
        None => string_of("Unknown error"),
    };
    let result = if success {
        copy_json(&output)
    } else {
        let mut m: Vec<(String, JsonValue)> = Vec::new();
        m.push((string_of("error"), JsonValue::String(err_text.clone())));
        JsonValue::Object(m)
    };
    state.record_tool_result(string_of(tool_name), result);
    let mut message = string_of("Tool '");
    push_str(&mut message, tool_name);
    if success {
        push_str(&mut message, "' executed successfully.\nResult: ");
        push_str(&mut message, output_text);
    } else {
        push_str(&mut message, "' failed.\nError: ");
        push_str(&mut message, err_text.as_str());
    }
    let step = state.current_step;
    state.add_message(
        AgentMessage {
            role: string_of("tool"),
            content: message.clone(),
            tool_call: None,
            tool_result: Some(
                ToolResult { name: string_of(tool_name), success, output, error, step_id: step },
            ),
        },
    );
    let ghost recorded = *state;
    let res = match transition_and_log(
        state,
        reg,
        AgentFsmState::ToolRequested,
        AgentFsmState::ToolResultProcessed,
    ) {
        Err(e) => Err(e),
        Ok(()) => Ok(message),
    };
    proof {
        assert(state.tool_results == recorded.tool_results);
        assert(state.message_history == recorded.message_history);
        assert(state.current_step == recorded.current_step);
        assert(forall|k: Seq<char>|
            #![trigger lookup(state.tool_results@, k)]
            k != tool_name@ ==> lookup(state.tool_results@, k) == lookup(old(state).tool_results@, k));
        assert(state.current_step == old(state).current_step + 1);
        assert(state.session_id == old(state).session_id);
        assert(state.config == old(state).config);
        assert(state.rolling_summary == old(state).rolling_summary);
        assert(lookup(state.tool_results@, tool_name@) matches Some(v) && if success {
            json_same(output, v)
        } else {
            is_error_object(v, error_or_unknown(error))
        });
        assert(state.message_history@.len() == old(state).message_history@.len() + 1);
        assert(state.message_history@.drop_last() == old(state).message_history@);
        let m = state.message_history@.last();
        assert(m.role@ == "tool"@);
        assert(m.content@ == tool_message_text(tool_name@, success, output_text@, error));
        assert(m.tool_result matches Some(tr) && tr.name@ == tool_name@ && tr.success == success
            && tr.output == output && tr.error == error && tr.step_id == state.current_step);
    }
    res
}

// ---------------------------------------------------------------------------
// Messages handed to the model
// ---------------------------------------------------------------------------

/// The key/value view of one message handed to the model.
pub open spec fn pairs_view(m: Seq<(String, String)>) -> Seq<(Seq<char>, Seq<char>)> {
    m.map_values(|p: (String, String)| (p.0@, p.1@))
}

/// The text of the message that carries the rolling summary.
pub open spec fn summary_message_text(s: ContextSummary) -> Seq<char> {
    "Conversation summary v"@ + decimal(s.version as nat) + ": "@ + s.text@
}

/// A `role`/`content` message.
pub open spec fn role_content(role: Seq<char>, content: Seq<char>) -> Seq<(Seq<char>, Seq<char>)> {
    seq![("role"@, role), ("content"@, content)]
}

/// One history message as handed to the model: its role and content, and,
/// where it asked for a tool, the tool call's JSON text under `tool_calls`.
pub open spec fn history_entry(m: AgentMessage, tool_call_text: Seq<char>) -> Seq<(Seq<char>, Seq<char>)> {
    if m.tool_call is Some {
        role_content(m.role@, m.content@).push(("tool_calls"@, tool_call_text))
    } else {
        role_content(m.role@, m.content@)
    }
}

/// The messages handed to the model: the system prompt, then the rolling
/// summary where there is one, then the history in order.
pub open spec fn llm_messages(
    system_prompt: Seq<char>,
    state: AgentState,
    tool_call_texts: Seq<Seq<char>>,
) -> Seq<Seq<(Seq<char>, Seq<char>)>> {
    let head = seq![role_content("system"@, system_prompt)];
    let with_summary = match state.rolling_summary {
        Some(s) => head.push(role_content("system"@, summary_message_text(s))),
        None => head,
    };
    with_summary + Seq::new(
        state.message_history@.len(),
        |i: int| history_entry(state.message_history@[i], tool_call_texts[i]),
    )
}

/// A `role`/`content` message built from owned strings.
pub fn role_content_message(role: String, content: String) -> (r: Vec<(String, String)>)
    ensures
        pairs_view(r@) == role_content(role@, content@),
{
    let mut r: Vec<(String, String)> = Vec::new();
    r.push((string_of("role"), role));
    r.push((string_of("content"), content));
    assert(pairs_view(r@) =~= role_content(role@, content@));
    r
}

/// The JSON text of tool call `c`: its name, arguments and step, in that
/// order, with no whitespace.
pub open spec fn tool_call_json(c: ToolCall) -> Seq<char> {
    "{\"name\":"@ + compact_json(JsonValue::String(c.name)) + ",\"arguments\":"@ + compact_json(
        c.arguments,
    ) + ",\"step_id\":"@ + decimal(c.step_id as nat) + "}"@
}

/// The tool call text of each message of `history`: the call's JSON text
/// where it asked for a tool, empty otherwise.
pub open spec fn tool_call_texts(history: Seq<AgentMessage>) -> Seq<Seq<char>> {
    Seq::new(
        history.len(),
        |i: int| match history[i].tool_call {
            Some(c) => tool_call_json(c),
            None => Seq::empty(),
        },
    )
}

/// Writes the JSON text of tool call `c` (see [`tool_call_json`]).
pub fn tool_call_text(c: &ToolCall) -> (r: String)
    ensures
        r@ == tool_call_json(*c),
{
    let mut t = string_of("{\"name\":");
    let name = to_compact(&JsonValue::String(copy_string(&c.name)));
    push_str(&mut t, name.as_str());
    push_str(&mut t, ",\"arguments\":");
    let args = to_compact(&c.arguments);
    push_str(&mut t, args.as_str());
    push_str(&mut t, ",\"step_id\":");
    push_decimal(&mut t, c.step_id as u64);
    push_str(&mut t, "}");
    t
}

/// The messages to hand to the model for `state`, opened by
/// `system_prompt`; a message that asked for a tool carries the call's
/// JSON text under `tool_calls`.
pub fn build_llm_messages(system_prompt: &str, state: &AgentState) -> (r: Vec<Vec<(String, String)>>)
    ensures
        r@.map_values(|m: Vec<(String, String)>| pairs_view(m@)) == llm_messages(
            system_prompt@,
            *state,
            tool_call_texts(state.message_history@),
        ),
{
    let n = state.message_history.len();
    let mut texts: Vec<String> = Vec::new();
    let mut i: usize = 0;
    while i < n
        invariant
            n == state.message_history@.len(),
            i <= n,
            texts@.len() == i,
            forall|j: int| 0 <= j < i ==> (#[trigger] texts@[j])@ == tool_call_texts(state.message_history@)[j],
        decreases n - i,
    {
        let t = match &state.message_history[i].tool_call {
            Some(c) => tool_call_text(c),
            None => String::new(),
        };
        texts.push(t);
        i = i + 1;
    }
    assert(texts@.map_values(|t: String| t@) =~= tool_call_texts(state.message_history@));
    build_llm_messages_with_texts(system_prompt, state, &texts)
}

/// The messages to hand to the model for `state`, opened by `system_prompt`.
/// `tool_call_texts[i]` is the JSON text of the tool call of history message
/// `i`, and is used only where that message asked for a tool.
pub fn build_llm_messages_with_texts(
    system_prompt: &str,
    state: &AgentState,
    tool_call_texts: &Vec<String>,
) -> (r: Vec<Vec<(String, String)>>)
    requires
        tool_call_texts@.len() == state.message_history@.len(),
    ensures
        r@.map_values(|m: Vec<(String, String)>| pairs_view(m@)) == llm_messages(
            system_prompt@,
            *state,
            tool_call_texts@.map_values(|t: String| t@),
        ),
{
    let ghost texts = tool_call_texts@.map_values(|t: String| t@);
    let ghost expected = llm_messages(system_prompt@, *state, texts);
    let mut r: Vec<Vec<(String, String)>> = Vec::new();
    r.push(role_content_message(string_of("system"), string_of(system_prompt)));
    let ghost head_len: int = 1;
    match &state.rolling_summary {
        Some(summary) => {
            let mut text = string_of("Conversation summary v");
            push_decimal(&mut text, summary.version);
            push_str(&mut text, ": ");
            push_str(&mut text, summary.text.as_str());
            r.push(role_content_message(string_of("system"), text));
            proof {
                head_len = 2;
            }
        },
        None => {},
    }
    assert(r@.map_values(|m: Vec<(String, String)>| pairs_view(m@)) =~= expected.take(head_len));
    let n = state.message_history.len();
    let mut i: usize = 0;
    while i < n
        invariant
            n == state.message_history@.len(),
            tool_call_texts@.len() == n,
            i <= n,
            texts == tool_call_texts@.map_values(|t: String| t@),
            expected == llm_messages(system_prompt@, *state, texts),
            head_len == (if state.rolling_summary is Some { 2int } else { 1int }),
            expected.len() == head_len + n,
            r@.map_values(|m: Vec<(String, String)>| pairs_view(m@)) =~= expected.take(head_len + i),
        decreases n - i,
    {
        let msg = &state.message_history[i];
        let mut m = role_content_message(copy_string(&msg.role), copy_string(&msg.content));
        if msg.tool_call.is_some() {
            m.push((string_of("tool_calls"), copy_string(&tool_call_texts[i])));
            assert(pairs_view(m@) =~= role_content(msg.role@, msg.content@).push(
                ("tool_calls"@, tool_call_texts@[i as int]@),
            ));
        }
        assert(pairs_view(m@) == history_entry(*msg, texts[i as int]));
        assert(expected[head_len + i] == history_entry(*msg, texts[i as int]));
        let ghost r_old = r@;
        let ghost entry = pairs_view(m@);
        r.push(m);
        assert(r@.map_values(|m: Vec<(String, String)>| pairs_view(m@)) =~= r_old.map_values(
            |m: Vec<(String, String)>| pairs_view(m@),
        ).push(entry));
        assert(expected.take(head_len + i).push(expected[head_len + i]) =~= expected.take(head_len + i + 1));
        i = i + 1;
    }
    assert(expected.take(head_len + n) =~= expected);
    r
}

} // verus!
