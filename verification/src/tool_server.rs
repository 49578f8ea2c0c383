//! What the application knows of the tools an MCP server offers.
use vstd::prelude::*;
use crate::json::JsonValue;

verus! {

/// MCP protocol version sent in the `initialize` handshake.
pub const PROTOCOL_VERSION: &'static str = "2024-11-05";

/// Hints about a tool: its audience, side effects and reach.
#[derive(Debug, Clone, PartialEq, Default)]
pub struct ToolAnnotations {
    pub title: Option<String>,
    pub read_only_hint: Option<bool>,
    pub destructive_hint: Option<bool>,
    pub idempotent_hint: Option<bool>,
    pub open_world_hint: Option<bool>,
}

/// One execution of a tool.
#[derive(Debug, PartialEq)]
pub struct ToolExecution {
    pub call_id: String,
    pub tool_name: String,
    pub arguments: JsonValue,
    pub started_at: String,
}

/// Icon of a tool.
#[derive(Debug, Clone, PartialEq)]
pub struct ToolIcon {
    pub mime_type: String,
    pub data: String,
}

/// A tool as a server's `tools/list` describes it.
#[derive(Debug, Clone, PartialEq)]
pub struct ServerToolInfo {
    pub name: String,
    pub description: Option<String>,
    pub annotations: Option<ToolAnnotations>,
}

/// How far a server supports task execution.
#[derive(Debug, Clone, Copy, PartialEq, Eq, Structural)]
pub enum TaskSupport {
    Unsupported,
    Single,
    Parallel,
}

/// Wire name of a task support level.
pub open spec fn task_support_name(t: TaskSupport) -> Seq<char> {
    match t {
        TaskSupport::Unsupported => "none"@,
        TaskSupport::Single => "single"@,
        TaskSupport::Parallel => "parallel"@,
    }
}

impl TaskSupport {
    /// The lower-case name under which the level is exchanged.
    pub fn as_str(&self) -> (r: &'static str)
        ensures
            r@ == task_support_name(*self),
    {
        match self {
            TaskSupport::Unsupported => "none",
            TaskSupport::Single => "single",
            TaskSupport::Parallel => "parallel",
        }
    }
}

} // verus!
