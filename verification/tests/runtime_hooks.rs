use antikythera::hooks::{
    apply_prepare_turn_override, classify_decision, classify_hook_result, is_passthrough,
    merge_json_object, resolve_precedence, HookDecision,
};
use antikythera::log_entries::{LogFilter, LogLevel};
use antikythera::logger::{LogRegistry, Logger};
use antikythera::json::JsonValue;
use antikythera::runner::AgentRunnerError;

/// The JSON value of a parsed `serde_json` value.
fn from_serde(v: serde_json::Value) -> JsonValue {
    match v {
        serde_json::Value::Null => JsonValue::Null,
        serde_json::Value::Bool(b) => JsonValue::Bool(b),
        serde_json::Value::Number(n) => JsonValue::Number(n.to_string()),
        serde_json::Value::String(s) => JsonValue::String(s),
        serde_json::Value::Array(a) => JsonValue::Array(a.into_iter().map(from_serde).collect()),
        serde_json::Value::Object(m) => {
            JsonValue::Object(m.into_iter().map(|(k, v)| (k, from_serde(v))).collect())
        }
    }
}

fn json(text: &str) -> JsonValue {
    from_serde(serde_json::from_str(text).unwrap())
}

#[test]
fn test_runtime_hooks_classify_passthrough() {
    let decision =
        classify_decision("prepare-turn", Ok(r#"{"passthrough": true}"#.to_string()));
    assert_eq!(decision, HookDecision::Passthrough);
}

#[test]
fn test_runtime_hooks_classify_passthrough_with_extra_key_is_override() {
    let decision = classify_decision(
        "prepare-turn",
        Ok(r#"{"passthrough": true, "prompt": "x"}"#.to_string()),
    );
    assert!(matches!(decision, HookDecision::Override(_)));
}

#[test]
fn test_runtime_hooks_classify_override() {
    let decision =
        classify_decision("prepare-turn", Ok(r#"{"prompt": "custom"}"#.to_string()));
    match decision {
        HookDecision::Override(value) => {
            assert_eq!(value, json(r#"{"prompt": "custom"}"#));
        }
        other => panic!("expected override, got {other:?}"),
    }
}

#[test]
fn test_runtime_hooks_classify_unparseable_is_error() {
    let decision = classify_decision("prepare-turn", Ok("not json".to_string()));
    assert!(matches!(decision, HookDecision::Failed(_)));
}

#[test]
fn test_runtime_hooks_classify_non_object_is_error() {
    let decision = classify_decision("prepare-turn", Ok(r#"[1, 2, 3]"#.to_string()));
    assert!(matches!(decision, HookDecision::Failed(_)));
}

#[test]
fn test_runtime_hooks_classify_err_is_error() {
    let decision = classify_decision("prepare-turn", Err("boom".to_string()));
    assert!(matches!(decision, HookDecision::Failed(_)));
}

#[test]
fn test_runtime_hooks_precedence_composed_passthrough_calls_runtime() {
    let mut runtime_called = false;
    let decision = resolve_precedence(true, HookDecision::Passthrough, || {
        runtime_called = true;
        HookDecision::Override(json(r#"{"prompt": "from runtime"}"#))
    })
    .expect("resolve should not fail");
    assert!(runtime_called);
    assert_eq!(decision, Some(json(r#"{"prompt": "from runtime"}"#)));
}

#[test]
fn test_runtime_hooks_precedence_composed_override_skips_runtime() {
    let mut runtime_called = false;
    let decision = resolve_precedence(
        true,
        HookDecision::Override(json(r#"{"prompt": "from composed"}"#)),
        || {
            runtime_called = true;
            HookDecision::Override(json(r#"{"prompt": "from runtime"}"#))
        },
    )
    .expect("resolve should not fail");
    assert!(
        !runtime_called,
        "runtime must not be consulted on composed override"
    );
    assert_eq!(decision, Some(json(r#"{"prompt": "from composed"}"#)));
}

#[test]
fn test_runtime_hooks_precedence_composed_error_aborts() {
    let mut runtime_called = false;
    let err = resolve_precedence(
        true,
        HookDecision::Failed("logic-hook prepare-turn failed: boom".to_string()),
        || {
            runtime_called = true;
            HookDecision::Passthrough
        },
    )
    .expect_err("composed failure must abort");
    assert!(
        !runtime_called,
        "runtime must not be consulted on composed failure"
    );
    assert!(err.to_string().contains("logic-hook prepare-turn failed"));
}

#[test]
fn test_runtime_hooks_disabled_skips_runtime() {
    let mut runtime_called = false;
    let decision = resolve_precedence(false, HookDecision::Passthrough, || {
        runtime_called = true;
        HookDecision::Override(json(r#"{"prompt": "from runtime"}"#))
    })
    .expect("resolve should not fail");
    assert!(!runtime_called, "runtime must not be called when disabled");
    assert_eq!(decision, None);
}

#[test]
fn test_runtime_hooks_runtime_passthrough_keeps_default() {
    let decision = resolve_precedence(true, HookDecision::Passthrough, || {
        HookDecision::Passthrough
    })
    .expect("resolve should not fail");
    assert_eq!(decision, None);
}

#[test]
fn test_runtime_hooks_runtime_error_aborts() {
    let err = resolve_precedence(true, HookDecision::Passthrough, || {
        HookDecision::Failed("runtime-hook prepare-turn failed: boom".to_string())
    })
    .expect_err("runtime failure must abort");
    assert!(err.to_string().contains("runtime-hook prepare-turn failed"));
}

#[test]
fn test_runtime_hooks_merge_json_object() {
    let merged = merge_json_object(
        "prepare-turn",
        json(r#"{"a": 1, "b": 2}"#),
        json(r#"{"b": 3, "c": 4}"#),
    )
    .expect("merge should succeed");
    assert_eq!(merged, json(r#"{"a": 1, "b": 3, "c": 4}"#));
}

#[test]
fn failure_messages_name_the_hook() {
    match classify_decision("decide-action", Err("boom".to_string())) {
        HookDecision::Failed(m) => assert_eq!(m, "runtime-hook decide-action failed: boom"),
        other => panic!("expected failure, got {other:?}"),
    }
    match classify_decision("decide-action", Ok("[1]".to_string())) {
        HookDecision::Failed(m) => {
            assert_eq!(m, "runtime-hook decide-action failed: returned non-object JSON")
        }
        other => panic!("expected failure, got {other:?}"),
    }
    let parse_error = serde_json::from_str::<serde_json::Value>("bad token").unwrap_err().to_string();
    match classify_decision("decide-action", Ok("bad token".to_string())) {
        HookDecision::Failed(m) => assert_eq!(
            m,
            format!("runtime-hook decide-action failed: returned unparseable JSON: {parse_error}")
        ),
        other => panic!("expected failure, got {other:?}"),
    }
}

#[test]
fn logic_hook_results() {
    assert!(matches!(
        classify_hook_result("prepare-turn", Ok(r#"{"passthrough": true}"#.to_string())),
        Ok(None)
    ));
    assert_eq!(
        classify_hook_result("prepare-turn", Ok(r#"{"x": 1}"#.to_string())).unwrap(),
        Some(json(r#"{"x": 1}"#))
    );
    match classify_hook_result("prepare-turn", Err("down".to_string())) {
        Err(AgentRunnerError::Internal(m)) => {
            assert_eq!(m, "logic-hook prepare-turn failed: down")
        }
        other => panic!("expected failure, got {other:?}"),
    }
}

#[test]
fn passthrough_signal_is_exact() {
    assert!(is_passthrough(&json(r#"{"passthrough": true}"#)));
    assert!(!is_passthrough(&json(r#"{"passthrough": false}"#)));
    assert!(!is_passthrough(&json(r#"{"passthrough": "true"}"#)));
    assert!(!is_passthrough(&json(r#"[]"#)));
}

#[test]
fn merge_rejects_non_objects() {
    let e = merge_json_object("prepare-turn", json("[1]"), json("{}")).unwrap_err();
    assert_eq!(
        e.to_string(),
        "Internal error: runtime-hook prepare-turn failed: SDK default is not a JSON object"
    );
    let e = merge_json_object("prepare-turn", json("{}"), json("2")).unwrap_err();
    assert_eq!(
        e.to_string(),
        "Internal error: runtime-hook prepare-turn failed: override is not a JSON object"
    );
}

#[test]
fn prepare_turn_override_is_merged_over_the_default() {
    let mut reg = LogRegistry::new();
    let merged = apply_prepare_turn_override(
        &mut reg,
        "s1",
        true,
        || HookDecision::Override(json(r#"{"prompt": "custom"}"#)),
        Ok(json(r#"{"prompt": "default", "step": 1}"#)),
    )
    .unwrap()
    .unwrap();
    let JsonValue::Object(members) = merged else { panic!("not an object") };
    let mut members = members;
    members.sort_by(|a, b| a.0.cmp(&b.0));
    assert_eq!(
        members,
        vec![
            ("prompt".to_string(), JsonValue::String("custom".to_string())),
            ("step".to_string(), JsonValue::Number("1".to_string())),
        ]
    );
    let entries = Logger::new("s1").get_logs(&reg, &LogFilter::new()).entries;
    assert_eq!(entries.len(), 1);
    assert_eq!(entries[0].level, LogLevel::Debug);
    assert_eq!(entries[0].message, "runtime-hook prepare-turn: override applied");
}

#[test]
fn prepare_turn_passthrough_or_disabled_keeps_the_default() {
    let mut reg = LogRegistry::new();
    let kept = apply_prepare_turn_override(
        &mut reg,
        "s1",
        true,
        || HookDecision::Passthrough,
        Ok(json(r#"{"prompt": "default"}"#)),
    );
    assert!(matches!(kept, Ok(None)));
    let skipped = apply_prepare_turn_override(
        &mut reg,
        "s1",
        false,
        || panic!("the runtime hook must not be consulted"),
        Ok(json(r#"{"prompt": "default"}"#)),
    );
    assert!(matches!(skipped, Ok(None)));
    assert!(Logger::new("s1").get_logs(&reg, &LogFilter::new()).entries.is_empty());
}

#[test]
fn prepare_turn_errors_abort_the_turn() {
    let mut reg = LogRegistry::new();
    let failed = apply_prepare_turn_override(
        &mut reg,
        "s1",
        true,
        || HookDecision::Failed("runtime-hook prepare-turn failed: boom".to_string()),
        Ok(json(r#"{"prompt": "default"}"#)),
    );
    match failed {
        Err(AgentRunnerError::Internal(m)) => assert_eq!(m, "runtime-hook prepare-turn failed: boom"),
        other => panic!("unexpected {:?}", other),
    }
    let bad_default = apply_prepare_turn_override(
        &mut reg,
        "s1",
        true,
        || HookDecision::Override(json(r#"{"prompt": "custom"}"#)),
        Err("expected value at line 1 column 1".to_string()),
    );
    match bad_default {
        Err(AgentRunnerError::Internal(m)) => assert_eq!(
            m,
            "runtime-hook prepare-turn failed: default prepared turn is not JSON: expected value at line 1 column 1"
        ),
        other => panic!("unexpected {:?}", other),
    }
}
