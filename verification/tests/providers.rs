use antikythera::json::JsonValue;
use antikythera::providers::{
    gemini_failure, gemini_request_parts, openai_failure, openai_messages, wants_json_output, MessageRole,
    ProviderFailure,
};

fn msgs() -> Vec<(MessageRole, String)> {
    vec![
        (MessageRole::System, "first rules".to_string()),
        (MessageRole::User, "hi".to_string()),
        (MessageRole::Assistant, "hello".to_string()),
        (MessageRole::ToolResult, "42".to_string()),
        (MessageRole::System, "last rules".to_string()),
    ]
}

#[test]
fn openai_roles_send_tool_results_as_the_user() {
    let m = openai_messages(&msgs());
    let roles: Vec<&str> = m.iter().map(|(r, _)| r.as_str()).collect();
    assert_eq!(roles, vec!["system", "user", "assistant", "user", "system"]);
    assert_eq!(m[3].1, "42");
}

#[test]
fn gemini_takes_the_last_system_message_as_instruction() {
    let (system, contents) = gemini_request_parts(&msgs());
    assert_eq!(system.as_deref(), Some("last rules"));
    assert_eq!(
        contents,
        vec![
            ("user".to_string(), "hi".to_string()),
            ("model".to_string(), "hello".to_string()),
            ("user".to_string(), "42".to_string()),
        ]
    );
    let (none, empty) = gemini_request_parts(&Vec::new());
    assert!(none.is_none() && empty.is_empty());
}

#[test]
fn json_output_is_asked_for_by_a_string_output_format() {
    let p = JsonValue::Object(vec![("output_format".to_string(), JsonValue::String("json".to_string()))]);
    assert!(wants_json_output(&p));
    assert!(!wants_json_output(&JsonValue::Object(vec![])));
    let not_text = JsonValue::Object(vec![("output_format".to_string(), JsonValue::Bool(true))]);
    assert!(!wants_json_output(&not_text));
}

#[test]
fn failing_statuses_become_provider_failures() {
    assert_eq!(
        openai_failure(429, false, None, "429 Too Many Requests", ""),
        Some(ProviderFailure::Network("Rate limited by API".to_string()))
    );
    assert_eq!(openai_failure(401, false, None, "401 Unauthorized", ""), Some(ProviderFailure::MissingApiKey));
    assert_eq!(openai_failure(200, true, None, "200 OK", "{}"), None);
    assert_eq!(
        openai_failure(500, false, Some("model overloaded".to_string()), "500 Internal Server Error", "{..}"),
        Some(ProviderFailure::Network("model overloaded".to_string()))
    );
    assert_eq!(
        gemini_failure(false, None, "404 Not Found", "nope"),
        Some(ProviderFailure::Network("HTTP 404 Not Found: nope".to_string()))
    );
    assert_eq!(gemini_failure(true, None, "200 OK", ""), None);
}

use antikythera::providers::{gemini_reply, openai_reply};

fn o(members: Vec<(&str, JsonValue)>) -> JsonValue {
    JsonValue::Object(members.into_iter().map(|(k, v)| (k.to_string(), v)).collect())
}

fn t(s: &str) -> JsonValue {
    JsonValue::String(s.to_string())
}

#[test]
fn openai_replies_give_the_first_choice_and_the_tokens() {
    let c = o(vec![
        (
            "choices",
            JsonValue::Array(vec![
                o(vec![("message", o(vec![("role", t("assistant")), ("content", t("hello"))]))]),
                o(vec![("message", o(vec![("content", t("second"))]))]),
            ]),
        ),
        ("usage", o(vec![("total_tokens", JsonValue::Number("42".to_string()))])),
    ]);
    assert_eq!(openai_reply(&c), ("hello".to_string(), 42));
    assert_eq!(openai_reply(&o(vec![("choices", JsonValue::Array(vec![]))])), (String::new(), 0));
}

#[test]
fn gemini_replies_give_the_first_part_and_the_tokens() {
    let g = o(vec![
        (
            "candidates",
            JsonValue::Array(vec![o(vec![(
                "content",
                o(vec![("parts", JsonValue::Array(vec![o(vec![("text", t("hi"))])])), ("role", t("model"))]),
            )])]),
        ),
        ("usageMetadata", o(vec![("totalTokenCount", JsonValue::Number("7".to_string()))])),
    ]);
    assert_eq!(gemini_reply(&g), ("hi".to_string(), 7));
    assert_eq!(gemini_reply(&o(vec![])), (String::new(), 0));
}
