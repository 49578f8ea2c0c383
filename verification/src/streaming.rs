//! What the agent runner exchanges with its host around a streamed turn:
//! the tools the host registered (and the check of a tool call against
//! them), the request to prepare a user turn and the prepared turn, the
//! result of committing the model's answer, the events queued for the host
//! and the per-session counters.
use vstd::prelude::*;
use crate::agent_types::{ContextPolicy, ContextSummary};
use crate::json::{arguments_error, validate_arguments, JsonValue};
use crate::text::{push_str, str_eq, string_of};

verus! {

/// A tool the host offers to the agent.
#[derive(Debug)]
pub struct ToolDefinition {
    pub name: String,
    pub description: String,
    /// The schema of the tool's arguments, where it has one.
    pub input_schema: Option<JsonValue>,
}

/// Position of the first tool named `name` in `tools`, or its length.
pub open spec fn tool_pos(tools: Seq<ToolDefinition>, name: Seq<char>) -> int
    decreases tools.len(),
{
    if tools.len() == 0 {
        0
    } else if tools[0].name@ == name {
        0
    } else {
        1 + tool_pos(tools.drop_first(), name)
    }
}

proof fn lemma_tool_pos(tools: Seq<ToolDefinition>, name: Seq<char>, i: int)
    requires
        0 <= i <= tools.len(),
        forall|j: int| 0 <= j < i ==> (#[trigger] tools[j]).name@ != name,
        i < tools.len() ==> tools[i].name@ == name,
    ensures
        tool_pos(tools, name) == i,
    decreases tools.len(),
{
    if tools.len() > 0 && i > 0 {
        assert forall|j: int| 0 <= j < i - 1 implies (#[trigger] tools.drop_first()[j]).name@
            != name by {
            assert(tools.drop_first()[j] == tools[j + 1]);
        }
        assert(tools[0].name@ != name);
        lemma_tool_pos(tools.drop_first(), name, i - 1);
    }
}

/// Why a call of tool `tool` with `arguments` does not fit the registered
/// `tools`, or `None` when it does: with no tool registered every call
/// passes; otherwise the tool must be registered and the arguments must
/// pass its input schema.
pub open spec fn tool_call_error(
    tools: Seq<ToolDefinition>,
    tool: Seq<char>,
    arguments: JsonValue,
) -> Option<Seq<char>> {
    if tools.len() == 0 {
        None
    } else if tool_pos(tools, tool) >= tools.len() {
        Some("Unknown tool: '"@ + tool + "'"@)
    } else {
        match tools[tool_pos(tools, tool)].input_schema {
            Some(s) => arguments_error(s, arguments),
            None => None,
        }
    }
}

/// Checks a call of tool `tool` with `arguments` against the registered
/// `tools`.
pub fn validate_tool_call(tools: &Vec<ToolDefinition>, tool: &str, arguments: &JsonValue) -> (r:
    Result<(), String>)
    ensures
        match tool_call_error(tools@, tool@, *arguments) {
            None => r is Ok,
            Some(e) => r matches Err(m) && m@ == e,
        },
{
    if tools.len() == 0 {
        return Ok(());
    }
    let mut i: usize = 0;
    while i < tools.len() && !str_eq(tools[i].name.as_str(), tool)
        invariant
            i <= tools.len(),
            forall|j: int| 0 <= j < i ==> (#[trigger] tools@[j]).name@ != tool@,
        decreases tools.len() - i,
    {
        i = i + 1;
    }
    proof {
        lemma_tool_pos(tools@, tool@, i as int);
    }
    if i == tools.len() {
        let mut e = string_of("Unknown tool: '");
        push_str(&mut e, tool);
        push_str(&mut e, "'");
        return Err(e);
    }
    match &tools[i].input_schema {
        Some(s) => validate_arguments(s, arguments),
        None => Ok(()),
    }
}

/// The lines naming the tools of `tools`, `- name: description` each.
pub open spec fn tool_lines(tools: Seq<ToolDefinition>) -> Seq<char>
    decreases tools.len(),
{
    if tools.len() == 0 {
        Seq::empty()
    } else {
        tool_lines(tools.drop_last()) + "\n- "@ + tools.last().name@ + ": "@
            + tools.last().description@
    }
}

/// The block that presents `tools` in a system prompt, or none when no
/// tool is registered.
pub open spec fn tools_block(tools: Seq<ToolDefinition>) -> Option<Seq<char>> {
    if tools.len() == 0 {
        None
    } else {
        Some("Available tools:"@ + tool_lines(tools))
    }
}

/// The block that presents `tools` in a system prompt.
pub fn tools_prompt_block(tools: &Vec<ToolDefinition>) -> (r: Option<String>)
    ensures
        match tools_block(tools@) {
            Some(b) => r matches Some(t) && t@ == b,
            None => r is None,
        },
{
    if tools.len() == 0 {
        return None;
    }
    let mut b = string_of("Available tools:");
    let mut i: usize = 0;
    while i < tools.len()
        invariant
            i <= tools.len(),
            b@ == "Available tools:"@ + tool_lines(tools@.take(i as int)),
        decreases tools.len() - i,
    {
        proof {
            assert(tools@.take(i + 1).drop_last() =~= tools@.take(i as int));
            assert(tools@.take(i + 1).last() == tools@[i as int]);
        }
        push_str(&mut b, "\n- ");
        push_str(&mut b, tools[i].name.as_str());
        push_str(&mut b, ": ");
        push_str(&mut b, tools[i].description.as_str());
        proof {
            assert(b@ =~= "Available tools:"@ + tool_lines(tools@.take(i + 1)));
        }
        i = i + 1;
    }
    proof {
        assert(tools@.take(tools.len() as int) =~= tools@);
    }
    Some(b)
}

/// The system prompt of a turn: the host's prompt (empty when none) and
/// the tools block, separated by a blank line when both are there.
pub open spec fn turn_system_prompt(base: Option<String>, tools: Seq<ToolDefinition>) -> Seq<char> {
    let b = match base {
        Some(s) => s@,
        None => Seq::empty(),
    };
    match tools_block(tools) {
        Some(t) => if b.len() == 0 {
            t
        } else {
            b + "\n\n"@ + t
        },
        None => b,
    }
}

/// Builds the system prompt of a turn (see [`turn_system_prompt`]).
pub fn build_turn_system_prompt(base: &Option<String>, tools: &Vec<ToolDefinition>) -> (r: String)
    ensures
        r@ == turn_system_prompt(*base, tools@),
{
    let mut b = match base {
        Some(s) => string_of(s.as_str()),
        None => String::new(),
    };
    match tools_prompt_block(tools) {
        Some(t) => {
            if b.as_str().unicode_len() == 0 {
                t
            } else {
                push_str(&mut b, "\n\n");
                push_str(&mut b, t.as_str());
                b
            }
        },
        None => b,
    }
}

/// What happened, as the host is told it.
#[derive(Debug, Clone, Copy, PartialEq, Eq, Structural)]
pub enum StreamEventKind {
    SessionRestoreRequested,
    SessionRestoreProgress,
    FsmStateChanged,
    UserTurnPrepared,
    LlmChunk,
    LlmCommitted,
    FinalResponse,
    ToolRequested,
    ToolResult,
}

/// An event queued for the host.
#[derive(Debug)]
pub struct StreamEvent {
    /// Position of the event among the events of its session, from 1.
    pub seq: u64,
    pub session_id: String,
    /// The session's step when the event was queued.
    pub step: u32,
    pub correlation_id: Option<String>,
    pub kind: StreamEventKind,
    /// What the event carries: a JSON object with the chunk, the answer,
    /// the tool and its input, the state change, and so on.
    pub payload: JsonValue,
}

/// How many things happened to a session.
#[derive(Debug, Clone, Copy, PartialEq, Eq, Structural, Default)]
pub struct TelemetryCounters {
    pub turns_prepared: u64,
    pub llm_chunks: u64,
    pub llm_commits: u64,
    pub final_responses: u64,
    pub tool_requests: u64,
    pub llm_retries: u64,
    pub tool_results: u64,
    pub tool_errors: u64,
}

/// What the host is told of a session's activity.
#[derive(Debug)]
pub struct TelemetrySnapshot {
    pub session_id: String,
    /// The correlation id of the session's latest event that had one.
    pub correlation_id: Option<String>,
    pub counters: TelemetryCounters,
    /// Milliseconds spent preparing turns, in all.
    pub total_prepare_latency_ms: u64,
    /// Milliseconds spent committing answers, in all.
    pub total_commit_latency_ms: u64,
    /// The session's machine state, empty when it is not in memory.
    pub fsm_state: String,
}

/// A host's request to prepare a user turn.
#[derive(Debug, Default)]
pub struct PrepareUserTurnInput {
    /// The session, or a new one when none.
    pub session_id: Option<String>,
    pub prompt: String,
    pub system_prompt: Option<String>,
    pub force_json: Option<bool>,
    pub metadata_json: Option<String>,
    pub correlation_id: Option<String>,
    pub context_policy: Option<ContextPolicy>,
}

/// A turn ready to be handed to the model.
#[derive(Debug)]
pub struct PreparedTurn {
    pub session_id: String,
    pub step: u32,
    pub prompt: String,
    pub system_prompt: String,
    pub force_json: bool,
    pub metadata_json: Option<String>,
    pub correlation_id: Option<String>,
    pub summary_handoff: Option<ContextSummary>,
    /// The messages for the model: the system prompt, the history, then
    /// the user's prompt.
    pub messages: Vec<Vec<(String, String)>>,
}

/// What committing the model's answer came to.
#[derive(Debug, PartialEq)]
pub struct CommitResult {
    pub session_id: String,
    pub step: u32,
    /// `final`, `call_tool` or `retry`.
    pub action: String,
    pub content: Option<String>,
    pub tool_name: Option<String>,
    pub tool_input: Option<JsonValue>,
    pub fsm_state: String,
}

} // verus!
