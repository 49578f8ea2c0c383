use antikythera::json::{
    json_type_name, validate_output, validate_arguments, validate_json_schema,
    value_matches_type, JsonValue,
};

fn s(t: &str) -> JsonValue {
    JsonValue::String(t.to_string())
}

fn n(t: &str) -> JsonValue {
    JsonValue::Number(t.to_string())
}

fn obj(members: Vec<(&str, JsonValue)>) -> JsonValue {
    JsonValue::Object(members.into_iter().map(|(k, v)| (k.to_string(), v)).collect())
}

fn search_schema(additional: Option<bool>) -> JsonValue {
    let mut members = vec![
        ("type", s("object")),
        (
            "properties",
            obj(vec![
                ("limit", obj(vec![("type", s("integer"))])),
                ("query", obj(vec![("type", s("string"))])),
                ("verbose", obj(vec![("type", s("boolean"))])),
            ]),
        ),
        ("required", JsonValue::Array(vec![s("query")])),
    ];
    if let Some(b) = additional {
        members.push(("additionalProperties", JsonValue::Bool(b)));
    }
    obj(members)
}

#[test]
fn no_schema_accepts_any_object() {
    assert_eq!(validate_arguments(&JsonValue::Null, &obj(vec![("x", n("1"))])), Ok(()));
    assert_eq!(validate_arguments(&obj(vec![]), &JsonValue::Null), Ok(()));
    assert_eq!(
        validate_arguments(&JsonValue::Null, &s("text")),
        Err("arguments must be a JSON object (even empty)".to_string())
    );
}

#[test]
fn schema_must_be_an_object_schema() {
    assert_eq!(
        validate_arguments(&s("object"), &obj(vec![])),
        Err("inputSchema must be a JSON object".to_string())
    );
    assert_eq!(
        validate_arguments(&obj(vec![("type", s("array"))]), &obj(vec![])),
        Err("invalid tool schema: expected type 'object', got 'array'".to_string())
    );
}

#[test]
fn arguments_must_be_an_object() {
    assert_eq!(
        validate_arguments(&search_schema(None), &JsonValue::Array(vec![])),
        Err("arguments must be a JSON object matching the tool's input schema. Provide parameters as key-value pairs.".to_string())
    );
}

#[test]
fn valid_arguments_pass() {
    let args = obj(vec![("query", s("rust")), ("limit", n("5"))]);
    assert_eq!(validate_arguments(&search_schema(Some(false)), &args), Ok(()));
    // Undeclared arguments are accepted unless additionalProperties is false.
    let extra = obj(vec![("query", s("rust")), ("page", n("2"))]);
    assert_eq!(validate_arguments(&search_schema(None), &extra), Ok(()));
}

#[test]
fn unexpected_parameter_lists_the_allowed_ones() {
    let extra = obj(vec![("query", s("rust")), ("page", n("2"))]);
    assert_eq!(
        validate_arguments(&search_schema(Some(false)), &extra),
        Err("unexpected parameter 'page'. Allowed parameters: [limit, query, verbose]".to_string())
    );
}

#[test]
fn missing_required_parameter() {
    assert_eq!(
        validate_arguments(&search_schema(None), &obj(vec![("limit", n("5"))])),
        Err("missing required parameter 'query'. Please provide a value for this parameter.".to_string())
    );
}

#[test]
fn mistyped_parameter() {
    let args = obj(vec![("query", s("rust")), ("verbose", s("yes"))]);
    assert_eq!(
        validate_arguments(&search_schema(None), &args),
        Err("parameter 'verbose' must be of type 'boolean', but received 'string'. Please correct the value.".to_string())
    );
    // A property without a declared type must be a string.
    let schema = obj(vec![("properties", obj(vec![("name", obj(vec![]))]))]);
    assert_eq!(
        validate_arguments(&schema, &obj(vec![("name", n("3"))])),
        Err("parameter 'name' must be of type 'string', but received 'number'. Please correct the value.".to_string())
    );
}

#[test]
fn type_names_and_matching() {
    assert_eq!(json_type_name(&JsonValue::Null), "null");
    assert_eq!(json_type_name(&JsonValue::Bool(true)), "boolean");
    assert_eq!(json_type_name(&obj(vec![])), "object");
    assert!(value_matches_type(&n("1.5"), "integer"));
    assert!(value_matches_type(&s("x"), "anything-else"));
    assert!(!value_matches_type(&JsonValue::Null, "array"));
}

#[test]
fn json_schema_required_fields() {
    let schema = obj(vec![("required", JsonValue::Array(vec![s("id"), n("7"), s("name")]))]);
    assert_eq!(
        validate_json_schema(&schema, &JsonValue::Null),
        Err("JSON is null".to_string())
    );
    assert_eq!(
        validate_json_schema(&schema, &obj(vec![("id", n("1"))])),
        Err("Missing required field: name".to_string())
    );
    assert_eq!(
        validate_json_schema(&schema, &obj(vec![("id", n("1")), ("name", s("a"))])),
        Ok(())
    );
    // Non-object data is not checked for fields.
    assert_eq!(validate_json_schema(&schema, &s("x")), Ok(()));
}

#[test]
fn output_warnings_in_order() {
    let schema = obj(vec![
        ("required", JsonValue::Array(vec![s("id"), s("title")])),
        (
            "properties",
            obj(vec![("count", obj(vec![("type", s("number"))])), ("id", obj(vec![]))]),
        ),
    ]);
    let result = obj(vec![("count", s("many")), ("id", s("x"))]);
    assert_eq!(
        validate_output(&schema, &result, "lookup"),
        vec![
            "output missing required field 'title' per outputSchema | tool=lookup".to_string(),
            "output field 'count' type mismatch: expected 'number', got 'string' | tool=lookup"
                .to_string(),
        ]
    );
    assert!(validate_output(&JsonValue::Null, &result, "t").is_empty());
    assert_eq!(
        validate_output(&s("bad"), &result, "t"),
        vec!["outputSchema is not a valid JSON object | tool=t".to_string()]
    );
    assert_eq!(
        validate_output(&schema, &n("1"), "t"),
        vec!["output is not an object, expected per outputSchema | tool=t".to_string()]
    );
}
