use antikythera::json::JsonValue;
use antikythera::type_mapping::{json_schema_of, FieldSpec, RustType};

fn path(name: &str, arg: Option<RustType>) -> RustType {
    RustType::Path { ident: name.to_string(), first_arg: arg.map(Box::new) }
}

fn field(name: &str, ty: RustType, has_default: bool) -> FieldSpec {
    FieldSpec { name: name.to_string(), ty, has_default }
}

fn s(t: &str) -> JsonValue {
    JsonValue::String(t.to_string())
}

fn obj(members: Vec<(&str, JsonValue)>) -> JsonValue {
    JsonValue::Object(members.into_iter().map(|(k, v)| (k.to_string(), v)).collect())
}

#[test]
fn a_struct_schema_lists_properties_required_fields_and_definitions() {
    let fields = vec![
        field("query", path("String", None), false),
        field("limit", path("Option", Some(path("u32", None))), false),
        field("tags", path("Vec", Some(path("Tag", None))), true),
        field("owner", path("Tag", None), false),
        field("other", path("Vec", Some(path("Owner", None))), false),
    ];
    let schema = json_schema_of(&fields);
    let expected = obj(vec![
        ("type", s("object")),
        (
            "properties",
            obj(vec![
                ("query", obj(vec![("type", s("string"))])),
                ("limit", obj(vec![("type", s("integer"))])),
                ("tags", obj(vec![("type", s("array")), ("items", obj(vec![("$ref", s("#/definitions/Tag"))]))])),
                ("owner", obj(vec![("$ref", s("#/definitions/Tag"))])),
                ("other", obj(vec![("type", s("array")), ("items", obj(vec![("$ref", s("#/definitions/Owner"))]))])),
            ]),
        ),
        ("required", JsonValue::Array(vec![s("query"), s("owner"), s("other")])),
        (
            "definitions",
            obj(vec![("Tag", obj(vec![("type", s("object"))])), ("Owner", obj(vec![("type", s("object"))]))]),
        ),
    ]);
    assert_eq!(schema, expected);
}

#[test]
fn a_struct_without_required_fields_has_no_required_list() {
    let fields = vec![field("note", path("Option", Some(path("String", None))), false)];
    let schema = json_schema_of(&fields);
    assert_eq!(
        schema,
        obj(vec![
            ("type", s("object")),
            ("properties", obj(vec![("note", obj(vec![("type", s("string"))]))])),
            ("definitions", obj(vec![])),
        ])
    );
}

use antikythera::type_mapping::{read_plugin_settings, tool_plugin_definition, tool_plugin_schema, PluginSettings};

fn kv(pairs: &[(&str, &str)]) -> Vec<(String, String)> {
    pairs.iter().map(|(k, v)| (k.to_string(), v.to_string())).collect()
}

#[test]
fn a_tool_plugin_schema_always_lists_required_fields() {
    let fields = vec![field("note", path("Option", Some(path("String", None))), false)];
    assert_eq!(
        tool_plugin_schema(&fields),
        obj(vec![
            ("type", s("object")),
            ("properties", obj(vec![("note", obj(vec![("type", s("string"))]))])),
            ("required", JsonValue::Array(vec![])),
        ])
    );
    let with_ref = vec![field("owner", path("Tag", None), false)];
    assert_eq!(
        tool_plugin_schema(&with_ref),
        obj(vec![
            ("type", s("object")),
            ("properties", obj(vec![("owner", obj(vec![("$ref", s("#/definitions/Tag"))]))])),
            ("required", JsonValue::Array(vec![s("owner")])),
            ("definitions", obj(vec![("Tag", obj(vec![("type", s("object"))]))])),
        ])
    );
}

#[test]
fn a_tool_plugin_definition_carries_name_description_and_schema() {
    let fields = vec![field("a", path("i32", None), false), field("b", path("i32", None), false)];
    assert_eq!(
        tool_plugin_definition("multiply", "Multiply two numbers", &fields),
        obj(vec![
            ("name", s("multiply")),
            ("description", s("Multiply two numbers")),
            ("parameters", JsonValue::Array(vec![])),
            ("input_schema", tool_plugin_schema(&fields)),
        ])
    );
}

#[test]
fn plugin_attributes_name_the_handler_and_definition() {
    assert_eq!(
        read_plugin_settings(&vec![kv(&[("handler", "my::multiply")])]),
        Ok(PluginSettings {
            handler: "my::multiply".to_string(),
            definition: "serde_json::Value".to_string(),
            definition_is_json_value: true,
        })
    );
    let custom = read_plugin_settings(&vec![kv(&[("handler", "h"), ("definition", "toolrunner::ToolDefinition")])]).unwrap();
    assert!(!custom.definition_is_json_value);
    let spaced = read_plugin_settings(&vec![kv(&[("definition", "serde_json :: Value"), ("handler", "h")])]).unwrap();
    assert!(spaced.definition_is_json_value);
}

#[test]
fn malformed_plugin_attributes_are_refused() {
    assert_eq!(
        read_plugin_settings(&vec![]),
        Err("ToolPlugin requires `#[plugin(handler = \"path::to::handler\")]` attribute".to_string())
    );
    assert_eq!(
        read_plugin_settings(&vec![kv(&[("definition", "X")])]),
        Err("ToolPlugin requires `#[plugin(handler = \"path::to::handler\")]` attribute".to_string())
    );
    assert_eq!(
        read_plugin_settings(&vec![kv(&[("handler", "a"), ("handler", "b")])]),
        Err("duplicate `handler` key in #[plugin]".to_string())
    );
    assert_eq!(
        read_plugin_settings(&vec![kv(&[("definition", "a"), ("definition", "b")])]),
        Err("duplicate `definition` key in #[plugin]".to_string())
    );
    assert_eq!(
        read_plugin_settings(&vec![kv(&[("handlr", "a")])]),
        Err("unknown plugin attribute, expected `handler` or `definition`".to_string())
    );
    assert_eq!(
        read_plugin_settings(&vec![kv(&[("handler", "a")]), kv(&[("handler", "b")])]),
        Err("multiple #[plugin] attributes are not allowed".to_string())
    );
}
