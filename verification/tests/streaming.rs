use antikythera::json::JsonValue;
use antikythera::streaming::{build_turn_system_prompt, tools_prompt_block, validate_tool_call, ToolDefinition};

fn obj(members: Vec<(&str, JsonValue)>) -> JsonValue {
    JsonValue::Object(members.into_iter().map(|(k, v)| (k.to_string(), v)).collect())
}

fn tool(name: &str, description: &str, schema: Option<JsonValue>) -> ToolDefinition {
    ToolDefinition { name: name.to_string(), description: description.to_string(), input_schema: schema }
}

#[test]
fn an_empty_registry_accepts_every_call() {
    assert!(validate_tool_call(&Vec::new(), "anything", &JsonValue::Null).is_ok());
}

#[test]
fn unknown_tools_are_refused() {
    let tools = vec![tool("search", "Find", None)];
    assert_eq!(validate_tool_call(&tools, "delete", &obj(vec![])), Err("Unknown tool: 'delete'".to_string()));
    assert!(validate_tool_call(&tools, "search", &obj(vec![])).is_ok());
}

#[test]
fn arguments_are_checked_against_the_schema() {
    let schema = obj(vec![
        ("type", JsonValue::String("object".to_string())),
        ("properties", obj(vec![("q", obj(vec![("type", JsonValue::String("string".to_string()))]))])),
        ("required", JsonValue::Array(vec![JsonValue::String("q".to_string())])),
    ]);
    let tools = vec![tool("search", "Find", Some(schema))];
    assert!(validate_tool_call(&tools, "search", &obj(vec![("q", JsonValue::String("x".to_string()))])).is_ok());
    assert!(validate_tool_call(&tools, "search", &obj(vec![])).is_err());
}

#[test]
fn the_tools_block_lists_each_tool() {
    assert_eq!(tools_prompt_block(&Vec::new()), None);
    let tools = vec![tool("a", "first", None), tool("b", "second", None)];
    assert_eq!(tools_prompt_block(&tools).as_deref(), Some("Available tools:\n- a: first\n- b: second"));
}

#[test]
fn the_system_prompt_joins_the_base_and_the_tools() {
    let tools = vec![tool("a", "first", None)];
    assert_eq!(build_turn_system_prompt(&None, &Vec::new()), "");
    assert_eq!(build_turn_system_prompt(&Some("base".to_string()), &Vec::new()), "base");
    assert_eq!(build_turn_system_prompt(&None, &tools), "Available tools:\n- a: first");
    assert_eq!(build_turn_system_prompt(&Some(String::new()), &tools), "Available tools:\n- a: first");
    assert_eq!(build_turn_system_prompt(&Some("base".to_string()), &tools), "base\n\nAvailable tools:\n- a: first");
}
