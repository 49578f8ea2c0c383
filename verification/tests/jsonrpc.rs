use antikythera::json::{copy_json, JsonValue};
use antikythera::jsonrpc::{
    as_i64, build_elicitation_ack, classify_inbound, classify_line, error_message,
    handle_notification, handle_response, initialize_params, notification_message, ping_result,
    request_id, request_message, response_key, response_message, response_outcome,
    response_result, server_instructions, server_request, tool_call_params,
    unsupported_request_error, InboundKind, LineAction, ResponseOutcome, ServerRequest,
};
use antikythera::log_entries::{LogFilter, LogLevel};
use antikythera::logger::{LogRegistry, Logger};
use antikythera::module_loggers::TransportLogger;

fn s(t: &str) -> JsonValue {
    JsonValue::String(t.to_string())
}

fn n(t: &str) -> JsonValue {
    JsonValue::Number(t.to_string())
}

fn obj(members: Vec<(&str, JsonValue)>) -> JsonValue {
    JsonValue::Object(members.into_iter().map(|(k, v)| (k.to_string(), v)).collect())
}

fn member<'a>(v: &'a JsonValue, key: &str) -> Option<&'a JsonValue> {
    match v {
        JsonValue::Object(m) => m.iter().find(|(k, _)| k == key).map(|(_, v)| v),
        _ => None,
    }
}

fn messages(reg: &LogRegistry, session: &str) -> Vec<(LogLevel, String)> {
    Logger::new(session)
        .get_logs(reg, &LogFilter::new())
        .entries
        .into_iter()
        .map(|e| (e.level, e.message))
        .collect()
}

#[test]
fn numbers_read_as_i64_only_when_integral_and_in_range() {
    assert_eq!(as_i64(&n("-32601")), Some(-32601));
    assert_eq!(as_i64(&n("42")), Some(42));
    assert_eq!(as_i64(&n("9223372036854775807")), Some(i64::MAX));
    assert_eq!(as_i64(&n("-9223372036854775808")), Some(i64::MIN));
    assert_eq!(as_i64(&n("9223372036854775808")), None);
    assert_eq!(as_i64(&n("123456789012345678901234")), None);
    assert_eq!(as_i64(&n("1.5")), None);
    assert_eq!(as_i64(&n("1e3")), None);
    assert_eq!(as_i64(&n("-")), None);
    assert_eq!(as_i64(&s("7")), None);
}

#[test]
fn request_ids_count_up() {
    assert_eq!(request_id(1), "req-1");
    assert_eq!(request_id(42), "req-42");
    assert_ne!(request_id(1), request_id(11));
}

#[test]
fn outgoing_messages_carry_the_protocol_version() {
    let req = request_message("req-1", "tools/list", obj(vec![]));
    assert_eq!(member(&req, "jsonrpc"), Some(&s("2.0")));
    assert_eq!(member(&req, "id"), Some(&s("req-1")));
    assert_eq!(member(&req, "method"), Some(&s("tools/list")));
    assert_eq!(member(&req, "params"), Some(&obj(vec![])));
    let note = notification_message("notifications/initialized", obj(vec![]));
    assert_eq!(member(&note, "id"), None);
    assert_eq!(member(&note, "method"), Some(&s("notifications/initialized")));
    let ok = response_message(n("7"), obj(vec![("ok", JsonValue::Bool(true))]));
    assert_eq!(member(&ok, "id"), Some(&n("7")));
    assert_eq!(member(&ok, "result"), Some(&obj(vec![("ok", JsonValue::Bool(true))])));
    let err = error_message(s("x"), obj(vec![("code", n("-32601"))]));
    assert_eq!(member(&err, "error"), Some(&obj(vec![("code", n("-32601"))])));
    assert_eq!(member(&err, "result"), None);
}

#[test]
fn tool_calls_send_null_arguments_as_an_empty_object() {
    let p = tool_call_params("search", JsonValue::Null);
    assert_eq!(member(&p, "name"), Some(&s("search")));
    assert_eq!(member(&p, "arguments"), Some(&obj(vec![])));
    let p = tool_call_params("search", obj(vec![("q", s("cats"))]));
    assert_eq!(member(&p, "arguments"), Some(&obj(vec![("q", s("cats"))])));
}

#[test]
fn initialize_announces_the_client() {
    let p = initialize_params("antikythera-core", "0.1.0");
    assert_eq!(member(&p, "protocolVersion"), Some(&s("2024-11-05")));
    let info = member(&p, "clientInfo").unwrap();
    assert_eq!(member(info, "name"), Some(&s("antikythera-core")));
    assert_eq!(member(info, "version"), Some(&s("0.1.0")));
    assert_eq!(member(info, "title"), Some(&s("CBT MCP Client")));
    let caps = member(&p, "capabilities").unwrap();
    let tools = member(caps, "tools").unwrap();
    assert_eq!(member(tools, "listChanged"), Some(&JsonValue::Bool(true)));
    let init = obj(vec![("instructions", s("be nice"))]);
    assert_eq!(server_instructions(&init), Some("be nice".to_string()));
    assert_eq!(server_instructions(&obj(vec![("instructions", n("1"))])), None);
}

#[test]
fn results_default_to_null() {
    assert_eq!(response_result(obj(vec![("result", n("3"))])), n("3"));
    assert_eq!(response_result(obj(vec![("id", n("3"))])), JsonValue::Null);
}

#[test]
fn lines_blank_or_coloured_are_skipped() {
    let mut reg = LogRegistry::new();
    let log = TransportLogger::new(&mut reg, "srv");
    assert_eq!(classify_line(&mut reg, &log, "srv", "   "), LineAction::Skip);
    assert!(messages(&reg, "srv").is_empty());
    assert_eq!(
        classify_line(&mut reg, &log, "srv", "  \u{1b}[32mINFO ready\u{1b}[0m "),
        LineAction::Skip
    );
    assert_eq!(
        messages(&reg, "srv"),
        vec![(
            LogLevel::Debug,
            "skipping non-JSON ANSI log line from MCP server | server=srv line=\u{1b}[32mINFO ready\u{1b}[0m"
                .to_string()
        )]
    );
    assert_eq!(classify_line(&mut reg, &log, "srv", "{\"id\":1}"), LineAction::Parse);
}

#[test]
fn inbound_messages_are_told_apart_by_id_and_method() {
    assert_eq!(
        classify_inbound(&obj(vec![("id", n("1")), ("method", s("ping"))])),
        InboundKind::ServerRequest
    );
    assert_eq!(classify_inbound(&obj(vec![("id", n("1")), ("result", n("2"))])), InboundKind::Response);
    assert_eq!(classify_inbound(&obj(vec![("method", s("x"))])), InboundKind::Notification);
    assert_eq!(classify_inbound(&obj(vec![("result", n("2"))])), InboundKind::Ignored);
    assert_eq!(classify_inbound(&JsonValue::Null), InboundKind::Ignored);
}

#[test]
fn response_keys_are_string_ids_or_number_text() {
    assert_eq!(response_key(&s("req-3")), Some("req-3".to_string()));
    assert_eq!(response_key(&n("3")), Some("3".to_string()));
    assert_eq!(response_key(&JsonValue::Null), None);
}

#[test]
fn responses_carry_errors_with_defaults() {
    let ok = obj(vec![("id", s("req-1")), ("result", n("1"))]);
    assert_eq!(response_outcome(copy_json(&ok)), ResponseOutcome::Success(ok));
    let err = obj(vec![("error", obj(vec![("code", n("-32602")), ("message", s("bad params"))]))]);
    assert_eq!(
        response_outcome(err),
        ResponseOutcome::RpcError { code: -32602, message: "bad params".to_string() }
    );
    let bare = obj(vec![("error", obj(vec![("code", n("1.5"))]))]);
    assert_eq!(
        response_outcome(bare),
        ResponseOutcome::RpcError { code: -32000, message: "unknown error".to_string() }
    );
    assert_eq!(response_outcome(obj(vec![("error", s("boom"))])), ResponseOutcome::MissingErrorPayload);
}

#[test]
fn responses_wake_their_waiting_request_once() {
    let mut reg = LogRegistry::new();
    let log = TransportLogger::new(&mut reg, "srv");
    let mut pending = vec!["req-1".to_string(), "req-2".to_string()];
    let got = handle_response(&mut reg, &log, "srv", &mut pending, &s("req-2"), obj(vec![("result", n("1"))]));
    assert_eq!(
        got,
        Some(("req-2".to_string(), ResponseOutcome::Success(obj(vec![("result", n("1"))]))))
    );
    assert_eq!(pending, vec!["req-1".to_string()]);
    let again = handle_response(&mut reg, &log, "srv", &mut pending, &s("req-2"), obj(vec![]));
    assert_eq!(again, None);
    assert_eq!(pending, vec!["req-1".to_string()]);
    assert_eq!(
        messages(&reg, "srv"),
        vec![(
            LogLevel::Debug,
            "received response for unknown request | server=srv response_id=req-2".to_string()
        )]
    );
    let dropped = handle_response(&mut reg, &log, "srv", &mut pending, &JsonValue::Null, obj(vec![]));
    assert_eq!(dropped, None);
    assert_eq!(messages(&reg, "srv").len(), 1);
}

#[test]
fn server_requests_get_ping_elicitation_or_an_error() {
    assert_eq!(server_request(obj(vec![("method", s("ping"))])), ServerRequest::Ping);
    assert_eq!(
        server_request(obj(vec![("method", s("elicitation/create")), ("params", obj(vec![]))])),
        ServerRequest::ElicitationCreate(obj(vec![]))
    );
    assert_eq!(
        server_request(obj(vec![("method", s("elicitation/create"))])),
        ServerRequest::ElicitationCreate(JsonValue::Null)
    );
    assert_eq!(
        server_request(obj(vec![("method", s("sampling/createMessage"))])),
        ServerRequest::Unsupported("sampling/createMessage".to_string())
    );
    assert_eq!(server_request(obj(vec![])), ServerRequest::Unsupported(String::new()));
    assert_eq!(ping_result(), obj(vec![("ok", JsonValue::Bool(true))]));
}

#[test]
fn elicitations_are_accepted_with_the_trimmed_message() {
    assert_eq!(
        build_elicitation_ack(Some("  pick one \n".to_string())),
        obj(vec![("action", s("accept")), ("content", obj(vec![("message", s("pick one"))]))])
    );
    assert_eq!(
        build_elicitation_ack(Some("   ".to_string())),
        obj(vec![("action", s("accept")), ("content", obj(vec![]))])
    );
    assert_eq!(
        build_elicitation_ack(None),
        obj(vec![("action", s("accept")), ("content", obj(vec![]))])
    );
}

#[test]
fn unsupported_requests_are_refused_and_logged() {
    let mut reg = LogRegistry::new();
    let log = TransportLogger::new(&mut reg, "srv");
    let e = unsupported_request_error(&mut reg, &log, "srv", "roots/list");
    assert_eq!(
        e,
        obj(vec![
            ("code", n("-32601")),
            ("message", s("client does not implement method 'roots/list'"))
        ])
    );
    assert_eq!(
        messages(&reg, "srv"),
        vec![(LogLevel::Warn, "server sent unsupported request | server=srv method=roots/list".to_string())]
    );
}

#[test]
fn tool_list_changes_ask_for_a_refresh() {
    let mut reg = LogRegistry::new();
    let log = TransportLogger::new(&mut reg, "srv");
    assert!(handle_notification(
        &mut reg,
        &log,
        "srv",
        &obj(vec![("method", s("notifications/tools/list_changed"))])
    ));
    assert!(!handle_notification(&mut reg, &log, "srv", &obj(vec![("method", s("notifications/progress"))])));
    assert!(!handle_notification(&mut reg, &log, "srv", &obj(vec![])));
    assert_eq!(
        messages(&reg, "srv"),
        vec![
            (
                LogLevel::Debug,
                "received notification from server | server=srv method=notifications/tools/list_changed"
                    .to_string()
            ),
            (
                LogLevel::Debug,
                "received notification from server | server=srv method=notifications/progress".to_string()
            ),
        ]
    );
}
