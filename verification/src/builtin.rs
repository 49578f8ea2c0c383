//! The builtin transport: tools implemented in-process behind the MCP
//! protocol.  The transport keeps the catalogue (tools with valid names,
//! their input and output schemas), the names of the tools that have a
//! handler and the instructions given to the agent, and decides what a
//! request gets: the catalogue, a refusal, a validation failure reported
//! to the model, or a call of the tool's handler.  The handlers themselves
//! are run by the caller, which hands their outcome back.
use vstd::prelude::*;
use vstd::utf8::encode_utf8;
use crate::assoc::lookup;
use crate::json::{field, get_str_field, str_field, take_field, validate_arguments, validate_output, arguments_error, output_warnings, JsonValue};
use crate::logger::{LogRegistry, RegistryState};
use crate::log_entries::LogLevel;
use crate::module_loggers::TransportLogger;
use crate::json_value::{compact_json, to_compact};
use crate::json::{copy_json, json_same};
use crate::text::{copy_string, decimal, push_decimal, push_str, str_eq, string_of};
use crate::validation::{tool_name_error, validate_tool_name};

verus! {

/// A tool offered by the builtin transport: its name and, where it has
/// them, the schemas of its arguments and of its result.
#[derive(Debug)]
pub struct BuiltinToolSpec {
    pub name: String,
    /// A human-readable name, where the tool has one.
    pub title: Option<String>,
    pub description: Option<String>,
    /// Icons for hosts to show, as the protocol writes them.
    pub icons: Option<JsonValue>,
    pub input_schema: Option<JsonValue>,
    pub output_schema: Option<JsonValue>,
    /// Hints on the tool's behaviour, as the protocol writes them.
    pub annotations: Option<JsonValue>,
    /// How the tool is run, as the protocol writes it.
    pub execution: Option<JsonValue>,
}

/// The length in bytes of `name`, as `str::len` gives it.
pub open spec fn byte_len(name: Seq<char>) -> nat {
    (encode_utf8(name).len() as usize) as nat
}

/// Whether `name` follows the MCP naming rules.
pub open spec fn name_ok(name: Seq<char>) -> bool {
    tool_name_error(name, byte_len(name)) is None
}

/// The tools of `tools` whose names are valid, in order.
pub open spec fn valid_tools(tools: Seq<BuiltinToolSpec>) -> Seq<BuiltinToolSpec>
    decreases tools.len(),
{
    if tools.len() == 0 {
        Seq::empty()
    } else if name_ok(tools.last().name@) {
        valid_tools(tools.drop_last()).push(tools.last())
    } else {
        valid_tools(tools.drop_last())
    }
}

/// Every tool kept has a name that follows the MCP rules, and every tool
/// with such a name is kept.
pub proof fn lemma_valid_tools(tools: Seq<BuiltinToolSpec>)
    ensures
        forall|i: int|
            0 <= i < valid_tools(tools).len() ==> name_ok(#[trigger] valid_tools(tools)[i].name@),
        forall|i: int|
            0 <= i < tools.len() && name_ok(tools[i].name@) ==> valid_tools(tools).contains(
                #[trigger] tools[i],
            ),
    decreases tools.len(),
{
    if tools.len() > 0 {
        let rest = tools.drop_last();
        lemma_valid_tools(rest);
        let v = valid_tools(tools);
        let vr = valid_tools(rest);
        if name_ok(tools.last().name@) {
            assert forall|i: int| 0 <= i < v.len() implies name_ok(#[trigger] v[i].name@) by {
                if i < vr.len() {
                    assert(v[i] == vr[i]);
                }
            }
            assert forall|i: int| 0 <= i < tools.len() && name_ok(tools[i].name@) implies v.contains(
                #[trigger] tools[i],
            ) by {
                if i < tools.len() - 1 {
                    assert(rest[i] == tools[i]);
                    let w = choose|w: int| 0 <= w < vr.len() && vr[w] == rest[i];
                    assert(v[w] == vr[w]);
                } else {
                    assert(v[vr.len() as int] == tools[i]);
                }
            }
        } else {
            assert forall|i: int| 0 <= i < tools.len() && name_ok(tools[i].name@) implies v.contains(
                #[trigger] tools[i],
            ) by {
                assert(i < tools.len() - 1);
                assert(rest[i] == tools[i]);
            }
        }
    }
}

/// The warnings for the tools of `tools` skipped for an invalid name, in
/// order.
pub open spec fn skipped_tool_warnings(tools: Seq<BuiltinToolSpec>) -> Seq<Seq<char>>
    decreases tools.len(),
{
    if tools.len() == 0 {
        Seq::empty()
    } else {
        let rest = skipped_tool_warnings(tools.drop_last());
        let name = tools.last().name@;
        match tool_name_error(name, byte_len(name)) {
            Some(reason) => rest.push(
                "skipping tool with invalid MCP name | tool="@ + name + " reason="@ + reason,
            ),
            None => rest,
        }
    }
}

/// The names of `tools`, each in backquotes, separated by `", "`.
pub open spec fn quoted_names(tools: Seq<BuiltinToolSpec>) -> Seq<char>
    decreases tools.len(),
{
    if tools.len() == 0 {
        Seq::empty()
    } else if tools.len() == 1 {
        "`"@ + tools[0].name@ + "`"@
    } else {
        quoted_names(tools.drop_last()) + ", `"@ + tools.last().name@ + "`"@
    }
}

/// The instructions the transport gives the agent by default.
pub open spec fn default_instructions_text(tools: Seq<BuiltinToolSpec>) -> Seq<char> {
    if tools.len() == 0 {
        "No built-in tools are currently configured."@
    } else {
        "Built-in utility tools available: "@ + quoted_names(tools)
            + ". These tools run locally and are always available."@
    }
}

/// The text logged once the transport is set up.
pub open spec fn initialised_text(count: nat) -> Seq<char> {
    "initialised builtin transport | tools_count="@ + decimal(count)
}

/// The builtin transport.
pub struct BuiltinTransport {
    server_name: String,
    instructions: String,
    tools: Vec<BuiltinToolSpec>,
    handlers: Vec<String>,
}

impl BuiltinTransport {
    /// The name under which the transport logs and answers.
    pub closed spec fn server(&self) -> Seq<char> {
        self.server_name@
    }

    /// The instructions given to the agent.
    pub closed spec fn instructions_text(&self) -> Seq<char> {
        self.instructions@
    }

    /// The catalogue: the tools with valid names, in the order given.
    pub closed spec fn catalogue(&self) -> Seq<BuiltinToolSpec> {
        self.tools@
    }

    /// Whether a handler is registered for tool `name`.
    pub closed spec fn has_handler(&self, name: Seq<char>) -> bool {
        exists|i: int| 0 <= i < self.handlers@.len() && (#[trigger] self.handlers@[i])@ == name
    }

    /// Default instructions naming the tools of `tools`.
    fn default_instructions(tools: &Vec<BuiltinToolSpec>) -> (r: String)
        ensures
            r@ == default_instructions_text(tools@),
    {
        if tools.len() == 0 {
            return string_of("No built-in tools are currently configured.");
        }
        let mut names = String::new();
        let mut i: usize = 0;
        while i < tools.len()
            invariant
                i <= tools.len(),
                tools.len() > 0,
                names@ == quoted_names(tools@.take(i as int)),
            decreases tools.len() - i,
        {
            proof {
                assert(tools@.take(i + 1).drop_last() =~= tools@.take(i as int));
                assert(tools@.take(i + 1).last() == tools@[i as int]);
            }
            if i > 0 {
                push_str(&mut names, ", ");
            }
            push_str(&mut names, "`");
            push_str(&mut names, tools[i].name.as_str());
            push_str(&mut names, "`");
            proof {
                reveal_strlit(", ");
                reveal_strlit("`");
                reveal_strlit(", `");
                if i == 0 {
                    assert(tools@.take(1)[0] == tools@[0]);
                    assert(names@ =~= quoted_names(tools@.take(1)));
                } else {
                    assert(names@ =~= quoted_names(tools@.take(i + 1)));
                }
            }
            i = i + 1;
        }
        assert(tools@.take(tools.len() as int) =~= tools@);
        let mut r = string_of("Built-in utility tools available: ");
        push_str(&mut r, names.as_str());
        push_str(&mut r, ". These tools run locally and are always available.");
        r
    }

    /// A transport named `server_name` offering the tools of `tools` whose
    /// names follow the MCP rules; each other tool is skipped with a
    /// warning, and the number kept is logged.  No tool has a handler yet;
    /// the instructions name the tools kept.
    pub fn with_tools(reg: &mut LogRegistry, server_name: &str, tools: Vec<BuiltinToolSpec>) -> (t:
        Self)
        requires
            old(reg).wf(),
        ensures
            final(reg).wf(),
            t.server() == server_name@,
            t.catalogue() == valid_tools(tools@),
            forall|name: Seq<char>| !t.has_handler(name),
            t.instructions_text() == default_instructions_text(valid_tools(tools@)),
            exists|mid: RegistryState|
                #![trigger old(reg)@.with_buffer(server_name@).logged_all(
                    mid,
                    server_name@,
                    LogLevel::Warn,
                    skipped_tool_warnings(tools@),
                    Some("transport"@),
                )]
                old(reg)@.with_buffer(server_name@).logged_all(
                    mid,
                    server_name@,
                    LogLevel::Warn,
                    skipped_tool_warnings(tools@),
                    Some("transport"@),
                ) && mid.logged_at_some_time(
                    final(reg)@,
                    server_name@,
                    LogLevel::Info,
                    initialised_text(valid_tools(tools@).len()),
                    Some("transport"@),
                    None,
                ),
    {
        let log = TransportLogger::new(reg, server_name);
        let ghost start = reg@;
        let mut kept: Vec<BuiltinToolSpec> = Vec::new();
        let mut rest = tools;
        let ghost all = rest@;
        let ghost mut i: int = 0;
        proof {
            start.lemma_logged_none(server_name@, LogLevel::Warn, Some("transport"@));
            assert(all.take(0) =~= Seq::<BuiltinToolSpec>::empty());
        }
        while rest.len() > 0
            invariant
                reg.wf(),
                log.sid() == server_name@,
                0 <= i <= all.len(),
                i + rest@.len() == all.len(),
                rest@ == all.subrange(i, all.len() as int),
                kept@ == valid_tools(all.take(i as int)),
                start.logged_all(
                    reg@,
                    server_name@,
                    LogLevel::Warn,
                    skipped_tool_warnings(all.take(i as int)),
                    Some("transport"@),
                ),
            decreases rest.len(),
        {
            let ghost before = reg@;
            let tool = rest.remove(0);
            proof {
                assert(tool == all[i as int]);
                assert(all.take(i + 1).drop_last() =~= all.take(i as int));
                assert(all.take(i + 1).last() == all[i as int]);
                assert(rest@ =~= all.subrange(i + 1, all.len() as int));
            }
            match validate_tool_name(tool.name.as_str()) {
                Ok(()) => {
                    kept.push(tool);
                    proof {
                        assert(kept@ =~= valid_tools(all.take(i + 1)));
                        assert(skipped_tool_warnings(all.take(i + 1)) =~= skipped_tool_warnings(
                            all.take(i as int),
                        ));
                    }
                },
                Err(reason) => {
                    let mut w = string_of("skipping tool with invalid MCP name | tool=");
                    push_str(&mut w, tool.name.as_str());
                    push_str(&mut w, " reason=");
                    push_str(&mut w, reason.as_str());
                    log.warn(reg, w.as_str());
                    proof {
                        let ms = skipped_tool_warnings(all.take(i + 1));
                        assert(ms.drop_last() =~= skipped_tool_warnings(all.take(i as int)));
                        assert(ms.last() == w@);
                        assert(start.logged_all(
                            before,
                            server_name@,
                            LogLevel::Warn,
                            ms.drop_last(),
                            Some("transport"@),
                        ));
                        assert(kept@ =~= valid_tools(all.take(i + 1)));
                        assert(before.logged_at_some_time(
                            reg@,
                            server_name@,
                            LogLevel::Warn,
                            ms.last(),
                            Some("transport"@),
                            None,
                        ));
                        start.lemma_logged_all_push(
                            before,
                            reg@,
                            server_name@,
                            LogLevel::Warn,
                            ms,
                            Some("transport"@),
                        );
                        assert(start.logged_all(
                            reg@,
                            server_name@,
                            LogLevel::Warn,
                            ms,
                            Some("transport"@),
                        ));
                    }
                },
            }
            proof {
                i = i + 1;
            }
        }
        proof {
            assert(all.take(all.len() as int) =~= all);
        }
        let ghost mid = reg@;
        let instructions = Self::default_instructions(&kept);
        let mut m = string_of("initialised builtin transport | tools_count=");
        push_decimal(&mut m, kept.len() as u64);
        log.info(reg, m.as_str());
        BuiltinTransport { server_name: string_of(server_name), instructions, tools: kept, handlers: Vec::new() }
    }

    /// The transport with a handler registered for tool `tool_name`.
    pub fn with_handler(self, tool_name: &str) -> (t: Self)
        ensures
            t.server() == self.server(),
            t.catalogue() == self.catalogue(),
            t.instructions_text() == self.instructions_text(),
            forall|name: Seq<char>| t.has_handler(name) <==> self.has_handler(name) || name == tool_name@,
    {
        let mut i: usize = 0;
        while i < self.handlers.len()
            invariant
                i <= self.handlers.len(),
                forall|j: int| 0 <= j < i ==> (#[trigger] self.handlers@[j])@ != tool_name@,
            decreases self.handlers.len() - i,
        {
            if str_eq(self.handlers[i].as_str(), tool_name) {
                return self;
            }
            i = i + 1;
        }
        let mut t = self;
        let ghost old_handlers = t.handlers@;
        t.handlers.push(string_of(tool_name));
        proof {
            assert forall|name: Seq<char>| t.has_handler(name) <==> self.has_handler(name) || name
                == tool_name@ by {
                if name == tool_name@ {
                    assert(t.handlers@[old_handlers.len() as int]@ == name);
                }
                if self.has_handler(name) {
                    let j = choose|j: int| 0 <= j < old_handlers.len() && (#[trigger] old_handlers[j])@ == name;
                    assert(t.handlers@[j] == old_handlers[j]);
                }
                if t.has_handler(name) && name != tool_name@ {
                    let j = choose|j: int| 0 <= j < t.handlers@.len() && (#[trigger] t.handlers@[j])@ == name;
                    assert(j < old_handlers.len());
                    assert(old_handlers[j] == t.handlers@[j]);
                }
            }
        }
        t
    }

    /// The transport with `instructions` given to the agent in place of the
    /// default ones.
    pub fn with_instructions(self, instructions: &str) -> (t: Self)
        ensures
            t.server() == self.server(),
            t.catalogue() == self.catalogue(),
            t.instructions_text() == instructions@,
            forall|name: Seq<char>| t.has_handler(name) == self.has_handler(name),
    {
        let mut t = self;
        t.instructions = string_of(instructions);
        assert(t.handlers == self.handlers);
        t
    }

    /// The instructions given to the agent.
    pub fn instructions(&self) -> (r: &str)
        ensures
            r@ == self.instructions_text(),
    {
        self.instructions.as_str()
    }

    /// The name under which the transport logs and answers.
    pub fn server_name(&self) -> (r: &str)
        ensures
            r@ == self.server(),
    {
        self.server_name.as_str()
    }

    /// The tools offered.
    pub fn tools(&self) -> (r: &Vec<BuiltinToolSpec>)
        ensures
            r@ == self.catalogue(),
    {
        &self.tools
    }
}

// ---------------------------------------------------------------------------
// Requests
// ---------------------------------------------------------------------------

/// Why a request to the builtin transport fails.
#[derive(Debug, PartialEq)]
pub enum BuiltinError {
    /// The request itself is malformed.
    Transport { message: String },
    /// A JSON-RPC error with its code.
    Rpc { code: i64, message: String },
}

/// What a request to the builtin transport comes to.
#[derive(Debug, PartialEq)]
pub enum BuiltinStep {
    /// `tools/list`: answer with the catalogue.
    ListTools,
    /// Answer with this result at once.
    Respond(JsonValue),
    /// Run the handler of `tool` on `arguments` and hand its outcome to
    /// [`BuiltinTransport::finish_tool_call`].
    Run { tool: String, arguments: JsonValue },
}

/// The schema of the arguments of tool `name`: that of the last tool of
/// `tools` with this name that has one.
pub open spec fn input_schema_for(tools: Seq<BuiltinToolSpec>, name: Seq<char>) -> Option<JsonValue>
    decreases tools.len(),
{
    if tools.len() == 0 {
        None
    } else if tools.last().name@ == name && tools.last().input_schema is Some {
        tools.last().input_schema
    } else {
        input_schema_for(tools.drop_last(), name)
    }
}

/// The schema of the result of tool `name`: that of the last tool of
/// `tools` with this name that has one.
pub open spec fn output_schema_for(tools: Seq<BuiltinToolSpec>, name: Seq<char>) -> Option<JsonValue>
    decreases tools.len(),
{
    if tools.len() == 0 {
        None
    } else if tools.last().name@ == name && tools.last().output_schema is Some {
        tools.last().output_schema
    } else {
        output_schema_for(tools.drop_last(), name)
    }
}

/// Whether `v` is a text content list holding `text` alone:
/// `[{"type": "text", "text": text}]`.
pub open spec fn is_text_content(v: JsonValue, text: Seq<char>) -> bool {
    v matches JsonValue::Array(items) && items@.len() == 1 && (items@[0] matches JsonValue::Object(m)
        && m@.len() == 2) && str_field(items@[0], "type"@) == Some("text"@) && str_field(
        items@[0],
        "text"@,
    ) == Some(text)
}

/// Whether `v` is a tool result reporting the failure `text` to the model:
/// `{"content": [text], "isError": true}`.
pub open spec fn is_error_result(v: JsonValue, text: Seq<char>) -> bool {
    &&& v matches JsonValue::Object(m) && m@.len() == 2
    &&& field(v, "isError"@) == Some(JsonValue::Bool(true))
    &&& field(v, "content"@) matches Some(c) && is_text_content(c, text)
}

/// Whether `v` is the successful tool result `result`, written as `text`:
/// `{"content": [text], "structuredContent": result, "isError": false}`.
pub open spec fn is_success_result(v: JsonValue, text: Seq<char>, result: JsonValue) -> bool {
    &&& v matches JsonValue::Object(m) && m@.len() == 3
    &&& field(v, "isError"@) == Some(JsonValue::Bool(false))
    &&& field(v, "structuredContent"@) == Some(result)
    &&& field(v, "content"@) matches Some(c) && is_text_content(c, text)
}

/// The error text for a tool that has no handler.
pub open spec fn unknown_tool_text(name: Seq<char>) -> Seq<char> {
    "unknown tool: '"@ + name + "'. Use tools/list to discover available tools."@
}

/// The error text for a method other than `tools/list` and `tools/call`.
pub open spec fn unsupported_method_text(method: Seq<char>) -> Seq<char> {
    "method not supported: '"@ + method + "'"@
}

/// The arguments of a `tools/call` request: its `arguments`, or `null`.
pub open spec fn call_arguments(params: JsonValue) -> JsonValue {
    match field(params, "arguments"@) {
        Some(a) => a,
        None => JsonValue::Null,
    }
}

/// The last tool of `tools` named `name`.
pub open spec fn last_named(tools: Seq<BuiltinToolSpec>, name: Seq<char>) -> Option<BuiltinToolSpec>
    decreases tools.len(),
{
    if tools.len() == 0 {
        None
    } else if tools.last().name@ == name {
        Some(tools.last())
    } else {
        last_named(tools.drop_last(), name)
    }
}

/// The failure of the arguments of a call of tool `name` with `params`
/// against the tool's input schema, where it has one.
pub open spec fn validation_failure(
    tools: Seq<BuiltinToolSpec>,
    name: Seq<char>,
    params: JsonValue,
) -> Option<Seq<char>> {
    match input_schema_for(tools, name) {
        Some(s) => arguments_error(s, call_arguments(params)),
        None => None,
    }
}

/// `[{"type": "text", "text": text}]`.
fn text_content(text: String) -> (r: JsonValue)
    ensures
        is_text_content(r, text@),
{
    let mut item: Vec<(String, JsonValue)> = Vec::new();
    item.push((string_of("type"), JsonValue::String(string_of("text"))));
    item.push((string_of("text"), JsonValue::String(text)));
    proof {
        reveal_strlit("type");
        reveal_strlit("text");
        crate::assoc::lemma_key_pos_unique(item@, "type"@, 0);
        assert(item@[0].0@[1] != item@[1].0@[1]);
        crate::assoc::lemma_key_pos_unique(item@, "text"@, 1);
    }
    let mut items: Vec<JsonValue> = Vec::new();
    items.push(JsonValue::Object(item));
    JsonValue::Array(items)
}

/// The tool result reporting the failure `text` to the model.
pub fn error_result(text: String) -> (r: JsonValue)
    ensures
        is_error_result(r, text@),
{
    let mut m: Vec<(String, JsonValue)> = Vec::new();
    m.push((string_of("content"), text_content(text)));
    m.push((string_of("isError"), JsonValue::Bool(true)));
    proof {
        reveal_strlit("content");
        reveal_strlit("isError");
        crate::assoc::lemma_key_pos_unique(m@, "content"@, 0);
        assert(m@[0].0@ != m@[1].0@) by {
            assert(m@[0].0@[0] != m@[1].0@[0]);
        }
        crate::assoc::lemma_key_pos_unique(m@, "isError"@, 1);
    }
    JsonValue::Object(m)
}

/// The successful tool result `result`, written as `text`.
pub fn success_result(text: String, result: JsonValue) -> (r: JsonValue)
    ensures
        is_success_result(r, text@, result),
{
    let mut m: Vec<(String, JsonValue)> = Vec::new();
    m.push((string_of("content"), text_content(text)));
    m.push((string_of("structuredContent"), result));
    m.push((string_of("isError"), JsonValue::Bool(false)));
    proof {
        reveal_strlit("content");
        reveal_strlit("structuredContent");
        reveal_strlit("isError");
        crate::assoc::lemma_key_pos_unique(m@, "content"@, 0);
        assert(m@[0].0@ != m@[1].0@) by {
            assert(m@[0].0@[0] != m@[1].0@[0]);
        }
        crate::assoc::lemma_key_pos_unique(m@, "structuredContent"@, 1);
        assert(m@[0].0@ != m@[2].0@) by {
            assert(m@[0].0@[0] != m@[2].0@[0]);
        }
        assert(m@[1].0@ != m@[2].0@) by {
            assert(m@[1].0@[0] != m@[2].0@[0]);
        }
        crate::assoc::lemma_key_pos_unique(m@, "isError"@, 2);
    }
    JsonValue::Object(m)
}

/// Whether `after` is `start` with `warnings` logged at warn level and
/// then `info` at info level, all in the log of `k` with source
/// `transport`.
pub open spec fn warned_then_informed(
    start: RegistryState,
    after: RegistryState,
    k: Seq<char>,
    warnings: Seq<Seq<char>>,
    info: Seq<char>,
) -> bool {
    exists|mid: RegistryState|
        #[trigger] start.logged_all(mid, k, LogLevel::Warn, warnings, Some("transport"@))
            && mid.logged_at_some_time(after, k, LogLevel::Info, info, Some("transport"@), None)
}

/// What follows the dispatch of a call of tool `name` with `params`, from
/// the registry `mid` to `after`: a validation failure is answered with
/// an error result and a warning; a tool without handler is refused with a
/// warning; otherwise the tool is run, with nothing more logged.
pub open spec fn call_tail(
    t: BuiltinTransport,
    mid: RegistryState,
    after: RegistryState,
    params: JsonValue,
    name: Seq<char>,
    r: Result<BuiltinStep, BuiltinError>,
) -> bool {
    match validation_failure(t.catalogue(), name, params) {
        Some(e) => {
            &&& r matches Ok(BuiltinStep::Respond(v)) && is_error_result(v, e)
            &&& mid.logged_at_some_time(
                after,
                t.server(),
                LogLevel::Warn,
                "input validation failed | tool="@ + name + " error="@ + e,
                Some("transport"@),
                None,
            )
        },
        None => if t.has_handler(name) {
            &&& r matches Ok(BuiltinStep::Run { tool, arguments }) && tool@ == name && arguments
                == call_arguments(params)
            &&& after == mid
        } else {
            &&& r matches Err(BuiltinError::Rpc { code, message }) && code == -32602 && message@
                == unknown_tool_text(name)
            &&& mid.logged_at_some_time(
                after,
                t.server(),
                LogLevel::Warn,
                "tool not found in builtin registry | tool="@ + name,
                Some("transport"@),
                None,
            )
        },
    }
}

/// Whether a call of tool `name` with `params` was dispatched, logged at
/// info level from `start`, and then went on as [`call_tail`] says to
/// `after`.
pub open spec fn dispatched_call(
    t: BuiltinTransport,
    start: RegistryState,
    after: RegistryState,
    params: JsonValue,
    name: Seq<char>,
    r: Result<BuiltinStep, BuiltinError>,
) -> bool {
    exists|mid: RegistryState|
        #[trigger] start.logged_at_some_time(
            mid,
            t.server(),
            LogLevel::Info,
            "dispatching tool call | tool="@ + name,
            Some("transport"@),
            None,
        ) && call_tail(t, mid, after, params, name, r)
}

impl BuiltinTransport {
    /// The schema of the arguments of tool `name`, where it has one.
    fn input_schema_of(&self, name: &str) -> (r: Option<&JsonValue>)
        ensures
            match r {
                Some(s) => input_schema_for(self.catalogue(), name@) == Some(*s),
                None => input_schema_for(self.catalogue(), name@) is None,
            },
    {
        let mut i: usize = self.tools.len();
        proof {
            assert(self.tools@.take(i as int) =~= self.tools@);
        }
        while i > 0
            invariant
                i <= self.tools.len(),
                input_schema_for(self.catalogue(), name@) == input_schema_for(
                    self.tools@.take(i as int),
                    name@,
                ),
            decreases i,
        {
            proof {
                assert(self.tools@.take(i as int).drop_last() =~= self.tools@.take(i - 1));
                assert(self.tools@.take(i as int).last() == self.tools@[i - 1]);
            }
            let t = &self.tools[i - 1];
            if str_eq(t.name.as_str(), name) {
                match &t.input_schema {
                    Some(s) => {
                        return Some(s);
                    },
                    None => {},
                }
            }
            i = i - 1;
        }
        proof {
            assert(self.tools@.take(0) =~= Seq::<BuiltinToolSpec>::empty());
        }
        None
    }

    /// The schema of the result of tool `name`, where it has one.
    fn output_schema_of(&self, name: &str) -> (r: Option<&JsonValue>)
        ensures
            match r {
                Some(s) => output_schema_for(self.catalogue(), name@) == Some(*s),
                None => output_schema_for(self.catalogue(), name@) is None,
            },
    {
        let mut i: usize = self.tools.len();
        proof {
            assert(self.tools@.take(i as int) =~= self.tools@);
        }
        while i > 0
            invariant
                i <= self.tools.len(),
                output_schema_for(self.catalogue(), name@) == output_schema_for(
                    self.tools@.take(i as int),
                    name@,
                ),
            decreases i,
        {
            proof {
                assert(self.tools@.take(i as int).drop_last() =~= self.tools@.take(i - 1));
                assert(self.tools@.take(i as int).last() == self.tools@[i - 1]);
            }
            let t = &self.tools[i - 1];
            if str_eq(t.name.as_str(), name) {
                match &t.output_schema {
                    Some(s) => {
                        return Some(s);
                    },
                    None => {},
                }
            }
            i = i - 1;
        }
        proof {
            assert(self.tools@.take(0) =~= Seq::<BuiltinToolSpec>::empty());
        }
        None
    }

    /// What the transport knows of tool `name`: the last tool of the
    /// catalogue with this name.
    pub fn tool_metadata(&self, name: &str) -> (r: Option<&BuiltinToolSpec>)
        ensures
            match r {
                Some(t) => last_named(self.catalogue(), name@) == Some(*t),
                None => last_named(self.catalogue(), name@) is None,
            },
    {
        let mut i: usize = self.tools.len();
        proof {
            assert(self.tools@.take(i as int) =~= self.tools@);
        }
        while i > 0
            invariant
                i <= self.tools.len(),
                last_named(self.catalogue(), name@) == last_named(self.tools@.take(i as int), name@),
            decreases i,
        {
            proof {
                assert(self.tools@.take(i as int).drop_last() =~= self.tools@.take(i - 1));
                assert(self.tools@.take(i as int).last() == self.tools@[i - 1]);
            }
            if str_eq(self.tools[i - 1].name.as_str(), name) {
                return Some(&self.tools[i - 1]);
            }
            i = i - 1;
        }
        proof {
            assert(self.tools@.take(0) =~= Seq::<BuiltinToolSpec>::empty());
        }
        None
    }

    /// Whether tool `name` has a handler.
    fn handler_registered(&self, name: &str) -> (r: bool)
        ensures
            r == self.has_handler(name@),
    {
        let mut i: usize = 0;
        while i < self.handlers.len()
            invariant
                i <= self.handlers.len(),
                forall|j: int| 0 <= j < i ==> (#[trigger] self.handlers@[j])@ != name@,
            decreases self.handlers.len() - i,
        {
            if str_eq(self.handlers[i].as_str(), name) {
                return true;
            }
            i = i + 1;
        }
        false
    }

    /// Decides what the request `method` with `params` comes to, logging
    /// in the transport's log: `tools/list` is answered with the
    /// catalogue; `tools/call` needs a tool name, then arguments that pass
    /// the tool's input schema (a failure is reported to the model as an
    /// error result) and a tool with a handler, which is then run; any
    /// other method is refused.
    pub fn handle_request(&self, reg: &mut LogRegistry, method: &str, params: JsonValue) -> (r:
        Result<BuiltinStep, BuiltinError>)
        requires
            old(reg).wf(),
        ensures
            final(reg).wf(),
            ({
                let start = old(reg)@.with_buffer(self.server());
                let src = Some("transport"@);
                if method@ == "tools/list"@ {
                    &&& r == Ok::<BuiltinStep, BuiltinError>(BuiltinStep::ListTools)
                    &&& start.logged_at_some_time(
                        final(reg)@,
                        self.server(),
                        LogLevel::Debug,
                        "handling tools/list request"@,
                        src,
                        None,
                    )
                } else if method@ == "tools/call"@ {
                    match str_field(params, "name"@) {
                        None => {
                            &&& r matches Err(BuiltinError::Transport { message }) && message@
                                == "missing tool name in tools/call params"@
                            &&& start.logged_at_some_time(
                                final(reg)@,
                                self.server(),
                                LogLevel::Warn,
                                "tools/call received without tool name"@,
                                src,
                                None,
                            )
                        },
                        Some(name) => dispatched_call(*self, start, final(reg)@, params, name, r),
                    }
                } else {
                    &&& r matches Err(BuiltinError::Rpc { code, message }) && code == -32601 && message@
                        == unsupported_method_text(method@)
                    &&& start.logged_at_some_time(
                        final(reg)@,
                        self.server(),
                        LogLevel::Warn,
                        "unsupported method requested | method="@ + method@,
                        src,
                        None,
                    )
                }
            }),
    {
        let log = TransportLogger::new(reg, self.server_name.as_str());
        let ghost start = reg@;
        proof {
            reveal_strlit("tools/list");
            reveal_strlit("tools/call");
        }
        if str_eq(method, "tools/list") {
            log.debug(reg, "handling tools/list request");
            return Ok(BuiltinStep::ListTools);
        }
        if !str_eq(method, "tools/call") {
            let mut w = string_of("unsupported method requested | method=");
            push_str(&mut w, method);
            log.warn(reg, w.as_str());
            let mut e = string_of("method not supported: '");
            push_str(&mut e, method);
            push_str(&mut e, "'");
            return Err(BuiltinError::Rpc { code: -32601, message: e });
        }
        let name = match get_str_field(&params, "name") {
            Some(n) => copy_string(n),
            None => {
                log.warn(reg, "tools/call received without tool name");
                return Err(
                    BuiltinError::Transport {
                        message: string_of("missing tool name in tools/call params"),
                    },
                );
            },
        };
        let ghost gparams = params;
        let arguments = match take_field(params, "arguments") {
            Some(a) => a,
            None => JsonValue::Null,
        };
        let mut d = string_of("dispatching tool call | tool=");
        push_str(&mut d, name.as_str());
        log.info(reg, d.as_str());
        let ghost mid = reg@;
        proof {
            assert(start.logged_at_some_time(
                mid,
                self.server(),
                LogLevel::Info,
                "dispatching tool call | tool="@ + name@,
                Some("transport"@),
                None,
            ));
            assert(arguments == call_arguments(gparams));
        }
        match self.input_schema_of(name.as_str()) {
            Some(schema) => {
                match validate_arguments(schema, &arguments) {
                    Err(e) => {
                        let mut w = string_of("input validation failed | tool=");
                        push_str(&mut w, name.as_str());
                        push_str(&mut w, " error=");
                        push_str(&mut w, e.as_str());
                        log.warn(reg, w.as_str());
                        return Ok(BuiltinStep::Respond(error_result(e)));
                    },
                    Ok(()) => {},
                }
            },
            None => {},
        }
        if !self.handler_registered(name.as_str()) {
            let mut w = string_of("tool not found in builtin registry | tool=");
            push_str(&mut w, name.as_str());
            log.warn(reg, w.as_str());
            let mut e = string_of("unknown tool: '");
            push_str(&mut e, name.as_str());
            push_str(&mut e, "'. Use tools/list to discover available tools.");
            return Err(BuiltinError::Rpc { code: -32602, message: e });
        }
        Ok(BuiltinStep::Run { tool: name, arguments })
    }

    /// The answer to a `tools/call` of `tool` whose handler came back with
    /// `outcome`: a success is checked against the tool's output schema
    /// (each warning logged; the check is advisory) and answered with the
    /// result, written as its compact JSON text, and as structured content;
    /// a failure is reported to the model as an error result.
    pub fn finish_tool_call(
        &self,
        reg: &mut LogRegistry,
        tool: &str,
        outcome: Result<JsonValue, String>,
    ) -> (r: JsonValue)
        requires
            old(reg).wf(),
        ensures
            final(reg).wf(),
            ({
                let start = old(reg)@.with_buffer(self.server());
                let src = Some("transport"@);
                match outcome {
                    Ok(result) => {
                        let warnings = match output_schema_for(self.catalogue(), tool@) {
                            Some(s) => output_warnings(s, result, tool@),
                            None => Seq::empty(),
                        };
                        &&& is_success_result(r, result_text(result), result)
                        &&& warned_then_informed(
                            start,
                            final(reg)@,
                            self.server(),
                            warnings,
                            "tool execution succeeded | tool="@ + tool@,
                        )
                    },
                    Err(e) => {
                        &&& is_error_result(r, e@)
                        &&& start.logged_at_some_time(
                            final(reg)@,
                            self.server(),
                            LogLevel::Warn,
                            "tool execution failed | tool="@ + tool@ + " error="@ + e@,
                            src,
                            None,
                        )
                    },
                }
            }),
    {
        let log = TransportLogger::new(reg, self.server_name.as_str());
        match outcome {
            Ok(result) => {
                let ghost start = reg@;
                let warnings = match self.output_schema_of(tool) {
                    Some(schema) => validate_output(schema, &result, tool),
                    None => Vec::new(),
                };
                let ghost ws = warnings@.map_values(|w: String| w@);
                proof {
                    start.lemma_logged_none(self.server(), LogLevel::Warn, Some("transport"@));
                    assert(ws.take(0) =~= Seq::<Seq<char>>::empty());
                }
                let mut i: usize = 0;
                while i < warnings.len()
                    invariant
                        i <= warnings.len(),
                        reg.wf(),
                        log.sid() == self.server(),
                        ws == warnings@.map_values(|w: String| w@),
                        start.logged_all(
                            reg@,
                            self.server(),
                            LogLevel::Warn,
                            ws.take(i as int),
                            Some("transport"@),
                        ),
                    decreases warnings.len() - i,
                {
                    let ghost before = reg@;
                    log.warn(reg, warnings[i].as_str());
                    proof {
                        assert(ws.take(i + 1).drop_last() =~= ws.take(i as int));
                        assert(ws.take(i + 1).last() == warnings@[i as int]@);
                        start.lemma_logged_all_push(
                            before,
                            reg@,
                            self.server(),
                            LogLevel::Warn,
                            ws.take(i + 1),
                            Some("transport"@),
                        );
                    }
                    i = i + 1;
                }
                proof {
                    assert(ws.take(warnings.len() as int) =~= ws);
                }
                let ghost mid = reg@;
                let mut m = string_of("tool execution succeeded | tool=");
                push_str(&mut m, tool);
                log.info(reg, m.as_str());
                proof {
                    assert(start.logged_all(mid, self.server(), LogLevel::Warn, ws, Some("transport"@)));
                }
                let text = write_result_text(&result);
                success_result(text, result)
            },
            Err(e) => {
                let mut w = string_of("tool execution failed | tool=");
                push_str(&mut w, tool);
                push_str(&mut w, " error=");
                push_str(&mut w, e.as_str());
                log.warn(reg, w.as_str());
                error_result(e)
            },
        }
    }
}

/// The text of a tool's result: its compact JSON text, or `{}` when that
/// cannot be written.
pub open spec fn result_text(result: JsonValue) -> Seq<char> {
    if compact_json(result).len() == 0 {
        "{}"@
    } else {
        compact_json(result)
    }
}

/// Writes the text of a tool's result (see [`result_text`]).
fn write_result_text(result: &JsonValue) -> (r: String)
    ensures
        r@ == result_text(*result),
{
    let t = to_compact(result);
    if t.as_str().unicode_len() == 0 {
        string_of("{}")
    } else {
        t
    }
}

/// Whether `v` is the optional text `t`: that string, or `null`.
pub open spec fn opt_text_fits(v: JsonValue, t: Option<String>) -> bool {
    match t {
        Some(x) => v matches JsonValue::String(y) && y@ == x@,
        None => v is Null,
    }
}

/// Whether `v` is the optional value `o`: the same value, or `null`.
pub open spec fn opt_json_fits(v: JsonValue, o: Option<JsonValue>) -> bool {
    match o {
        Some(x) => json_same(x, v),
        None => v is Null,
    }
}

/// Whether `v` is the entry of tool `t` in the answer to `tools/list`: its
/// name, title, description, icons, input and output schemas, annotations
/// and execution, in that order, each `null` where the tool has none.
pub open spec fn is_tool_entry(v: JsonValue, t: BuiltinToolSpec) -> bool {
    &&& v matches JsonValue::Object(m)
    &&& m@.len() == 8
    &&& m@[0].0@ == "name"@ && (m@[0].1 matches JsonValue::String(x) && x@ == t.name@)
    &&& m@[1].0@ == "title"@ && opt_text_fits(m@[1].1, t.title)
    &&& m@[2].0@ == "description"@ && opt_text_fits(m@[2].1, t.description)
    &&& m@[3].0@ == "icons"@ && opt_json_fits(m@[3].1, t.icons)
    &&& m@[4].0@ == "inputSchema"@ && opt_json_fits(m@[4].1, t.input_schema)
    &&& m@[5].0@ == "outputSchema"@ && opt_json_fits(m@[5].1, t.output_schema)
    &&& m@[6].0@ == "annotations"@ && opt_json_fits(m@[6].1, t.annotations)
    &&& m@[7].0@ == "execution"@ && opt_json_fits(m@[7].1, t.execution)
}

/// The optional text `t` as a JSON value.
fn opt_text_value(t: &Option<String>) -> (r: JsonValue)
    ensures
        opt_text_fits(r, *t),
{
    match t {
        Some(x) => JsonValue::String(copy_string(x)),
        None => JsonValue::Null,
    }
}

/// The optional value `o` as a JSON value.
fn opt_json_value(o: &Option<JsonValue>) -> (r: JsonValue)
    ensures
        opt_json_fits(r, *o),
{
    match o {
        Some(x) => copy_json(x),
        None => JsonValue::Null,
    }
}

/// The entry of tool `t` in the answer to `tools/list`.
fn tool_entry(t: &BuiltinToolSpec) -> (r: JsonValue)
    ensures
        is_tool_entry(r, *t),
{
    let mut m: Vec<(String, JsonValue)> = Vec::new();
    m.push((string_of("name"), JsonValue::String(copy_string(&t.name))));
    m.push((string_of("title"), opt_text_value(&t.title)));
    m.push((string_of("description"), opt_text_value(&t.description)));
    m.push((string_of("icons"), opt_json_value(&t.icons)));
    m.push((string_of("inputSchema"), opt_json_value(&t.input_schema)));
    m.push((string_of("outputSchema"), opt_json_value(&t.output_schema)));
    m.push((string_of("annotations"), opt_json_value(&t.annotations)));
    m.push((string_of("execution"), opt_json_value(&t.execution)));
    JsonValue::Object(m)
}

impl BuiltinTransport {
    /// The answer to `tools/list`: `{"tools": [...]}` with the entry of
    /// each tool of the catalogue, in order.
    pub fn list_tools_answer(&self) -> (r: JsonValue)
        ensures
            r matches JsonValue::Object(m) && m@.len() == 1 && m@[0].0@ == "tools"@ && (m@[0].1 matches JsonValue::Array(a)
                && a@.len() == self.catalogue().len() && forall|i: int|
                0 <= i < a@.len() ==> is_tool_entry(#[trigger] a@[i], self.catalogue()[i])),
    {
        let mut a: Vec<JsonValue> = Vec::new();
        let mut i: usize = 0;
        while i < self.tools.len()
            invariant
                i <= self.tools@.len(),
                a@.len() == i,
                forall|j: int| 0 <= j < i ==> is_tool_entry(#[trigger] a@[j], self.tools@[j]),
            decreases self.tools.len() - i,
        {
            a.push(tool_entry(&self.tools[i]));
            i = i + 1;
        }
        let mut m: Vec<(String, JsonValue)> = Vec::new();
        m.push((string_of("tools"), JsonValue::Array(a)));
        JsonValue::Object(m)
    }
}

} // verus!
