use antikythera::wasm_result::{locate_result, pack_result};

#[test]
fn a_packed_result_is_found_again() {
    let packed = pack_result(1024, 17);
    assert_eq!(packed, (1024i64 << 32) | 17);
    assert_eq!(locate_result(packed, 2048), Ok((1024, 17)));
}

#[test]
fn negative_values_are_error_codes() {
    assert_eq!(locate_result(-3, 100), Err("WASM agent returned error code: -3".to_string()));
}

#[test]
fn results_beyond_the_memory_are_refused() {
    let packed = pack_result(90, 20);
    assert_eq!(locate_result(packed, 100), Err("WASM result pointer out of bounds".to_string()));
    assert_eq!(locate_result(pack_result(80, 20), 100), Ok((80, 20)));
}

use antikythera::task::TaskResult;
use antikythera::wasm_result::wasm_task_result;

#[test]
fn raw_text_becomes_a_successful_output() {
    let r = wasm_task_result(None, "t1".to_string(), "agent".to_string(), "plain answer", Some("s".to_string()));
    assert!(r.success);
    assert_eq!(r.output, serde_json::Value::String("plain answer".to_string()));
    assert_eq!(r.steps_used, 0);
    assert_eq!(r.session_id, "s");
    assert_eq!((r.task_id.as_str(), r.agent_id.as_str()), ("t1", "agent"));
    let none = wasm_task_result(None, "t2".to_string(), "agent".to_string(), "x", None);
    assert_eq!(none.session_id, "");
}

#[test]
fn an_encoded_task_result_is_kept() {
    let given = TaskResult::failure("t1".to_string(), "agent".to_string(), "boom".to_string());
    let r = wasm_task_result(Some(given), "other".to_string(), "other".to_string(), "{}", None);
    assert!(!r.success);
    assert_eq!(r.task_id, "t1");
    assert_eq!(r.error.as_deref(), Some("boom"));
}

#[test]
fn packing_a_negative_address_sets_the_sign() {
    let packed = pack_result(-1, 5);
    assert_eq!(packed, -4294967291);
    assert_eq!(
        locate_result(packed, 100),
        Err("WASM agent returned error code: -4294967291".to_string())
    );
}

#[test]
fn packing_a_negative_length_fills_the_high_bits() {
    assert_eq!(pack_result(1, -1), -1);
    assert_eq!(pack_result(0, 0), 0);
    assert_eq!(pack_result(2, 3), 2 * 4294967296 + 3);
}
