use antikythera::builtin::{BuiltinError, BuiltinStep, BuiltinToolSpec, BuiltinTransport};
use antikythera::json::JsonValue;
use antikythera::log_entries::{LogFilter, LogLevel};
use antikythera::logger::{LogRegistry, Logger};

fn s(t: &str) -> JsonValue {
    JsonValue::String(t.to_string())
}

fn obj(members: Vec<(&str, JsonValue)>) -> JsonValue {
    JsonValue::Object(members.into_iter().map(|(k, v)| (k.to_string(), v)).collect())
}

fn arr(items: Vec<JsonValue>) -> JsonValue {
    JsonValue::Array(items)
}

fn tool(name: &str, input: Option<JsonValue>, output: Option<JsonValue>) -> BuiltinToolSpec {
    BuiltinToolSpec {
        name: name.to_string(),
        title: None,
        description: None,
        icons: None,
        input_schema: input,
        output_schema: output,
        annotations: None,
        execution: None,
    }
}

fn messages(reg: &LogRegistry, session: &str) -> Vec<(LogLevel, String)> {
    Logger::new(session)
        .get_logs(reg, &LogFilter::new())
        .entries
        .into_iter()
        .map(|e| (e.level, e.message))
        .collect()
}

fn echo_schema() -> JsonValue {
    obj(vec![
        ("type", s("object")),
        ("properties", obj(vec![("text", obj(vec![("type", s("string"))]))])),
        ("required", arr(vec![s("text")])),
    ])
}

fn transport(reg: &mut LogRegistry) -> BuiltinTransport {
    BuiltinTransport::with_tools(
        reg,
        "builtin",
        vec![
            tool("echo", Some(echo_schema()), Some(obj(vec![("required", arr(vec![s("text")]))]))),
            tool("bad name", None, None),
            tool("clock", None, None),
        ],
    )
    .with_handler("echo")
}

#[test]
fn invalid_tool_names_are_skipped_with_a_warning() {
    let mut reg = LogRegistry::new();
    let t = transport(&mut reg);
    let names: Vec<&str> = t.tools().iter().map(|x| x.name.as_str()).collect();
    assert_eq!(names, vec!["echo", "clock"]);
    assert_eq!(
        t.instructions(),
        "Built-in utility tools available: `echo`, `clock`. These tools run locally and are always available."
    );
    assert_eq!(
        messages(&reg, "builtin"),
        vec![
            (
                LogLevel::Warn,
                "skipping tool with invalid MCP name | tool=bad name reason=tool name contains invalid character ' '. Allowed: A-Z, a-z, 0-9, underscore, hyphen, dot"
                    .to_string()
            ),
            (LogLevel::Info, "initialised builtin transport | tools_count=2".to_string()),
        ]
    );
    assert_eq!(t.server_name(), "builtin");
    assert!(t.tool_metadata("clock").is_some());
    assert!(t.tool_metadata("bad name").is_none());
}

#[test]
fn no_tools_means_default_instructions_say_so() {
    let mut reg = LogRegistry::new();
    let t = BuiltinTransport::with_tools(&mut reg, "empty", Vec::new());
    assert_eq!(t.instructions(), "No built-in tools are currently configured.");
    let t = t.with_instructions("Use the tools wisely.");
    assert_eq!(t.instructions(), "Use the tools wisely.");
}

#[test]
fn tools_list_is_answered_with_the_catalogue() {
    let mut reg = LogRegistry::new();
    let t = transport(&mut reg);
    assert_eq!(t.handle_request(&mut reg, "tools/list", JsonValue::Null), Ok(BuiltinStep::ListTools));
    assert_eq!(
        messages(&reg, "builtin").last().cloned(),
        Some((LogLevel::Debug, "handling tools/list request".to_string()))
    );
}

#[test]
fn valid_calls_run_the_handler() {
    let mut reg = LogRegistry::new();
    let t = transport(&mut reg);
    let params = obj(vec![("name", s("echo")), ("arguments", obj(vec![("text", s("hi"))]))]);
    assert_eq!(
        t.handle_request(&mut reg, "tools/call", params),
        Ok(BuiltinStep::Run { tool: "echo".to_string(), arguments: obj(vec![("text", s("hi"))]) })
    );
    assert_eq!(
        messages(&reg, "builtin").last().cloned(),
        Some((LogLevel::Info, "dispatching tool call | tool=echo".to_string()))
    );
}

#[test]
fn invalid_arguments_are_reported_to_the_model() {
    let mut reg = LogRegistry::new();
    let t = transport(&mut reg);
    let params = obj(vec![("name", s("echo")), ("arguments", obj(vec![]))]);
    let expected_error =
        "missing required parameter 'text'. Please provide a value for this parameter.";
    assert_eq!(
        t.handle_request(&mut reg, "tools/call", params),
        Ok(BuiltinStep::Respond(obj(vec![
            ("content", arr(vec![obj(vec![("type", s("text")), ("text", s(expected_error))])])),
            ("isError", JsonValue::Bool(true)),
        ])))
    );
    assert_eq!(
        messages(&reg, "builtin").last().cloned(),
        Some((
            LogLevel::Warn,
            format!("input validation failed | tool=echo error={}", expected_error)
        ))
    );
}

#[test]
fn calls_without_a_name_or_handler_fail() {
    let mut reg = LogRegistry::new();
    let t = transport(&mut reg);
    assert_eq!(
        t.handle_request(&mut reg, "tools/call", obj(vec![])),
        Err(BuiltinError::Transport { message: "missing tool name in tools/call params".to_string() })
    );
    assert_eq!(
        t.handle_request(&mut reg, "tools/call", obj(vec![("name", s("clock"))])),
        Err(BuiltinError::Rpc {
            code: -32602,
            message: "unknown tool: 'clock'. Use tools/list to discover available tools.".to_string()
        })
    );
    assert_eq!(
        t.handle_request(&mut reg, "resources/list", JsonValue::Null),
        Err(BuiltinError::Rpc { code: -32601, message: "method not supported: 'resources/list'".to_string() })
    );
    let log = messages(&reg, "builtin");
    let tail: Vec<(LogLevel, String)> = log[log.len() - 4..].to_vec();
    assert_eq!(
        tail,
        vec![
            (LogLevel::Warn, "tools/call received without tool name".to_string()),
            (LogLevel::Info, "dispatching tool call | tool=clock".to_string()),
            (LogLevel::Warn, "tool not found in builtin registry | tool=clock".to_string()),
            (LogLevel::Warn, "unsupported method requested | method=resources/list".to_string()),
        ]
    );
}

#[test]
fn handler_outcomes_become_tool_results() {
    let mut reg = LogRegistry::new();
    let t = transport(&mut reg);
    let ok = t.finish_tool_call(&mut reg, "echo", Ok(obj(vec![("text", s("hi"))])));
    assert_eq!(
        ok,
        obj(vec![
            ("content", arr(vec![obj(vec![("type", s("text")), ("text", s("{\"text\":\"hi\"}"))])])),
            ("structuredContent", obj(vec![("text", s("hi"))])),
            ("isError", JsonValue::Bool(false)),
        ])
    );
    let failed = t.finish_tool_call(&mut reg, "echo", Err("boom".to_string()));
    assert_eq!(
        failed,
        obj(vec![
            ("content", arr(vec![obj(vec![("type", s("text")), ("text", s("boom"))])])),
            ("isError", JsonValue::Bool(true)),
        ])
    );
    let log = messages(&reg, "builtin");
    assert_eq!(
        log[log.len() - 2..].to_vec(),
        vec![
            (LogLevel::Info, "tool execution succeeded | tool=echo".to_string()),
            (LogLevel::Warn, "tool execution failed | tool=echo error=boom".to_string()),
        ]
    );
}

#[test]
fn output_schema_mismatches_are_only_warned() {
    let mut reg = LogRegistry::new();
    let t = transport(&mut reg);
    let r = t.finish_tool_call(&mut reg, "echo", Ok(obj(vec![])));
    assert_eq!(
        r,
        obj(vec![
            ("content", arr(vec![obj(vec![("type", s("text")), ("text", s("{}"))])])),
            ("structuredContent", obj(vec![])),
            ("isError", JsonValue::Bool(false)),
        ])
    );
    let log = messages(&reg, "builtin");
    assert_eq!(
        log[log.len() - 2..].to_vec(),
        vec![
            (
                LogLevel::Warn,
                "output missing required field 'text' per outputSchema | tool=echo".to_string()
            ),
            (LogLevel::Info, "tool execution succeeded | tool=echo".to_string()),
        ]
    );
}

#[test]
fn tools_list_answers_each_tool_with_its_metadata() {
    let mut reg = LogRegistry::new();
    let mut described = tool("echo", Some(echo_schema()), None);
    described.title = Some("Echo".to_string());
    described.annotations = Some(obj(vec![("readOnlyHint", JsonValue::Bool(true))]));
    let t = BuiltinTransport::with_tools(&mut reg, "builtin", vec![described]);
    assert_eq!(
        t.list_tools_answer(),
        obj(vec![(
            "tools",
            arr(vec![obj(vec![
                ("name", s("echo")),
                ("title", s("Echo")),
                ("description", JsonValue::Null),
                ("icons", JsonValue::Null),
                ("inputSchema", echo_schema()),
                ("outputSchema", JsonValue::Null),
                ("annotations", obj(vec![("readOnlyHint", JsonValue::Bool(true))])),
                ("execution", JsonValue::Null),
            ])]),
        )])
    );
}
