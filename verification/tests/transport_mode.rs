use antikythera::json::JsonValue;
use antikythera::transport_mode::{connect_mode, connect_start, refusal_text, server_instructions, ConnectStart, TransportMode};

#[test]
fn the_configured_mode_decides_how_connecting_starts() {
    assert_eq!(connect_start(TransportMode::Stateful, false), ConnectStart::ListenForEvents);
    assert_eq!(connect_start(TransportMode::Stateful, true), ConnectStart::Refuse);
    assert_eq!(connect_start(TransportMode::Stateless, false), ConnectStart::PostDirectly);
    assert_eq!(connect_start(TransportMode::Auto, true), ConnectStart::PostDirectly);
    assert_eq!(connect_start(TransportMode::Auto, false), ConnectStart::ListenForEvents);
    assert_eq!(refusal_text(), "Stateful SSE mode is not supported on wasm32 targets");
}

#[test]
fn the_event_endpoint_settles_the_mode() {
    assert_eq!(connect_mode(TransportMode::Auto, Ok(())), Ok(TransportMode::Stateful));
    assert_eq!(connect_mode(TransportMode::Auto, Err("timeout".to_string())), Ok(TransportMode::Stateless));
    assert_eq!(connect_mode(TransportMode::Stateful, Ok(())), Ok(TransportMode::Stateful));
    assert_eq!(connect_mode(TransportMode::Stateful, Err("timeout".to_string())), Err("timeout".to_string()));
    assert_eq!(connect_mode(TransportMode::Stateless, Err("x".to_string())), Ok(TransportMode::Stateless));
}

#[test]
fn instructions_are_read_from_the_initialize_answer() {
    let answer = JsonValue::Object(vec![("instructions".to_string(), JsonValue::String("be nice".to_string()))]);
    assert_eq!(server_instructions(&answer).as_deref(), Some("be nice"));
    assert_eq!(server_instructions(&JsonValue::Object(vec![])), None);
    let not_text = JsonValue::Object(vec![("instructions".to_string(), JsonValue::Bool(true))]);
    assert_eq!(server_instructions(&not_text), None);
}
