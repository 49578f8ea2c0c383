//! JSON values as the tool layer reads them, and the checks of tool
//! arguments and tool results against a tool's JSON Schema.
//!
//! The schema checks cover the subset of JSON Schema that MCP tool
//! definitions use: a top-level `type: "object"`, `properties` with a
//! `type` per property, a `required` list and `additionalProperties: false`.
use vstd::prelude::*;
use crate::assoc::{has_key, key_index, lookup};
use crate::text::{push_str, str_eq, string_of};

verus! {

/// A JSON value.  A number is kept by its JSON text; the members of an
/// object keep their order, and a key is looked up at its first occurrence.
#[derive(Debug, PartialEq)]
pub enum JsonValue {
    Null,
    Bool(bool),
    Number(String),
    String(String),
    Array(Vec<JsonValue>),
    Object(Vec<(String, JsonValue)>),
}

/// The member `key` of `v`; nothing when `v` is not an object.
pub open spec fn field(v: JsonValue, key: Seq<char>) -> Option<JsonValue> {
    match v {
        JsonValue::Object(m) => lookup(m@, key),
        _ => None,
    }
}

/// The member `key` of `v` when it is a string.
pub open spec fn str_field(v: JsonValue, key: Seq<char>) -> Option<Seq<char>> {
    match field(v, key) {
        Some(JsonValue::String(s)) => Some(s@),
        _ => None,
    }
}

/// The member `key` of `v` when it is a boolean.
pub open spec fn bool_field(v: JsonValue, key: Seq<char>) -> Option<bool> {
    match field(v, key) {
        Some(JsonValue::Bool(b)) => Some(b),
        _ => None,
    }
}

/// JSON Schema name of the type of `v`.
pub open spec fn json_kind_name(v: JsonValue) -> Seq<char> {
    match v {
        JsonValue::Null => "null"@,
        JsonValue::Bool(_) => "boolean"@,
        JsonValue::Number(_) => "number"@,
        JsonValue::String(_) => "string"@,
        JsonValue::Array(_) => "array"@,
        JsonValue::Object(_) => "object"@,
    }
}

/// Whether `v` has the JSON Schema type `t`; an unknown type name accepts
/// every value, and `integer` accepts every number.
pub open spec fn matches_type(v: JsonValue, t: Seq<char>) -> bool {
    if t == "string"@ {
        v is String
    } else if t == "number"@ || t == "integer"@ {
        v is Number
    } else if t == "boolean"@ {
        v is Bool
    } else if t == "object"@ {
        v is Object
    } else if t == "array"@ {
        v is Array
    } else if t == "null"@ {
        v is Null
    } else {
        true
    }
}

/// Whether `v` is an object without members.
pub open spec fn is_empty_object(v: JsonValue) -> bool {
    v matches JsonValue::Object(m) && m@.len() == 0
}

/// Keys of `m` in order, separated by `", "`.
pub open spec fn join_keys(m: Seq<(String, JsonValue)>) -> Seq<char>
    decreases m.len(),
{
    if m.len() == 0 {
        Seq::empty()
    } else if m.len() == 1 {
        m[0].0@
    } else {
        join_keys(m.drop_last()) + ", "@ + m.last().0@
    }
}

/// The first key of `args` that `props` lacks.
pub open spec fn first_unexpected(
    args: Seq<(String, JsonValue)>,
    props: Seq<(String, JsonValue)>,
) -> Option<Seq<char>>
    decreases args.len(),
{
    if args.len() == 0 {
        None
    } else if !has_key(props, args[0].0@) {
        Some(args[0].0@)
    } else {
        first_unexpected(args.drop_first(), props)
    }
}

/// The first name in `reqs` (a list of required names; entries that are not
/// strings are ignored) that `obj` lacks.
pub open spec fn first_missing(reqs: Seq<JsonValue>, obj: Seq<(String, JsonValue)>) -> Option<
    Seq<char>,
>
    decreases reqs.len(),
{
    if reqs.len() == 0 {
        None
    } else {
        match reqs[0] {
            JsonValue::String(n) => if !has_key(obj, n@) {
                Some(n@)
            } else {
                first_missing(reqs.drop_first(), obj)
            },
            _ => first_missing(reqs.drop_first(), obj),
        }
    }
}

/// Type that a property schema asks for; `string` when it names none.
pub open spec fn expected_type(prop_schema: JsonValue) -> Seq<char> {
    match str_field(prop_schema, "type"@) {
        Some(t) => t,
        None => "string"@,
    }
}

/// The first property of `props` present in `args` with a value of the
/// wrong type: its name, the expected type and the value.
pub open spec fn first_mistyped(
    props: Seq<(String, JsonValue)>,
    args: Seq<(String, JsonValue)>,
) -> Option<(Seq<char>, Seq<char>, JsonValue)>
    decreases props.len(),
{
    if props.len() == 0 {
        None
    } else {
        match lookup(args, props[0].0@) {
            Some(v) => if !matches_type(v, expected_type(props[0].1)) {
                Some((props[0].0@, expected_type(props[0].1), v))
            } else {
                first_mistyped(props.drop_first(), args)
            },
            None => first_mistyped(props.drop_first(), args),
        }
    }
}

pub open spec fn unexpected_message(key: Seq<char>, props: Seq<(String, JsonValue)>) -> Seq<char> {
    "unexpected parameter '"@ + key + "'. Allowed parameters: ["@ + join_keys(props) + "]"@
}

pub open spec fn missing_message(name: Seq<char>) -> Seq<char> {
    "missing required parameter '"@ + name + "'. Please provide a value for this parameter."@
}

pub open spec fn mistyped_message(name: Seq<char>, t: Seq<char>, v: JsonValue) -> Seq<char> {
    "parameter '"@ + name + "' must be of type '"@ + t + "', but received '"@ + json_kind_name(v)
        + "'. Please correct the value."@
}

/// Error for arguments given to a tool whose schema is not an object
/// schema with properties.
pub open spec fn not_object_message() -> Seq<char> {
    "arguments must be a JSON object matching the tool's input schema. Provide parameters as key-value pairs."@
}

/// The error of the checks that follow the schema's shape, for an object
/// schema `s` and object arguments `a`.
pub open spec fn object_arguments_error(s: JsonValue, a: Seq<(String, JsonValue)>) -> Option<
    Seq<char>,
> {
    let allow_additional = match bool_field(s, "additionalProperties"@) {
        Some(b) => b,
        None => true,
    };
    let unexpected = match field(s, "properties"@) {
        Some(JsonValue::Object(p)) => if allow_additional {
            None
        } else {
            match first_unexpected(a, p@) {
                Some(k) => Some(unexpected_message(k, p@)),
                None => None,
            }
        },
        _ => None,
    };
    let missing = match field(s, "required"@) {
        Some(JsonValue::Array(r)) => first_missing(r@, a),
        _ => None,
    };
    let mistyped = match field(s, "properties"@) {
        Some(JsonValue::Object(p)) => first_mistyped(p@, a),
        _ => None,
    };
    if unexpected is Some {
        unexpected
    } else if missing is Some {
        Some(missing_message(missing->0))
    } else {
        match mistyped {
            Some(t) => Some(mistyped_message(t.0, t.1, t.2)),
            None => None,
        }
    }
}

/// The error `validate_arguments` reports for `args` under `schema`, or
/// `None` when the arguments are accepted.
pub open spec fn arguments_error(schema: JsonValue, args: JsonValue) -> Option<Seq<char>> {
    if schema is Null || is_empty_object(schema) {
        if args is Null || args is Object {
            None
        } else {
            Some("arguments must be a JSON object (even empty)"@)
        }
    } else if !(schema is Object) {
        Some("inputSchema must be a JSON object"@)
    } else {
        match str_field(schema, "type"@) {
            Some(t) if t != "object"@ => Some(
                "invalid tool schema: expected type 'object', got '"@ + t + "'"@,
            ),
            _ => match args {
                JsonValue::Object(a) => object_arguments_error(schema, a@),
                _ => Some(not_object_message()),
            },
        }
    }
}

/// The member `key` of `v`, when `v` is an object that has it.
pub fn get_field<'a>(v: &'a JsonValue, key: &str) -> (r: Option<&'a JsonValue>)
    ensures
        match r {
            Some(x) => field(*v, key@) == Some(*x),
            None => field(*v, key@) is None,
        },
{
    match v {
        JsonValue::Object(m) => {
            let i = key_index(m, key);
            if i < m.len() {
                Some(&m[i].1)
            } else {
                None
            }
        },
        _ => None,
    }
}

/// The member `key` of `v` when it is a string.
pub fn get_str_field<'a>(v: &'a JsonValue, key: &str) -> (r: Option<&'a String>)
    ensures
        match r {
            Some(s) => str_field(*v, key@) == Some(s@),
            None => str_field(*v, key@) is None,
        },
{
    match get_field(v, key) {
        Some(JsonValue::String(s)) => Some(s),
        _ => None,
    }
}

/// The member `key` of `v` when it is a boolean.
pub fn get_bool_field(v: &JsonValue, key: &str) -> (r: Option<bool>)
    ensures
        r == bool_field(*v, key@),
{
    match get_field(v, key) {
        Some(JsonValue::Bool(b)) => Some(*b),
        _ => None,
    }
}

/// Takes member `key` out of `v`, when `v` is an object that has it.
pub fn take_field(v: JsonValue, key: &str) -> (r: Option<JsonValue>)
    ensures
        r == field(v, key@),
{
    match v {
        JsonValue::Object(mut m) => {
            let i = key_index(&m, key);
            if i < m.len() {
                let e = m.remove(i);
                Some(e.1)
            } else {
                None
            }
        },
        _ => None,
    }
}

/// JSON Schema name of the type of `v`.
pub fn json_type_name(v: &JsonValue) -> (r: &'static str)
    ensures
        r@ == json_kind_name(*v),
{
    match v {
        JsonValue::Null => "null",
        JsonValue::Bool(_) => "boolean",
        JsonValue::Number(_) => "number",
        JsonValue::String(_) => "string",
        JsonValue::Array(_) => "array",
        JsonValue::Object(_) => "object",
    }
}

/// Each JSON Schema type keyword accepts exactly the values of its own
/// kind (`integer` and `number` both any number); a keyword it does not
/// know accepts every value.
pub proof fn lemma_type_keywords(v: JsonValue, t: Seq<char>)
    ensures
        t == "string"@ ==> (matches_type(v, t) <==> v is String),
        t == "number"@ ==> (matches_type(v, t) <==> v is Number),
        t == "integer"@ ==> (matches_type(v, t) <==> v is Number),
        t == "boolean"@ ==> (matches_type(v, t) <==> v is Bool),
        t == "object"@ ==> (matches_type(v, t) <==> v is Object),
        t == "array"@ ==> (matches_type(v, t) <==> v is Array),
        t == "null"@ ==> (matches_type(v, t) <==> v is Null),
        t != "string"@ && t != "number"@ && t != "integer"@ && t != "boolean"@ && t != "object"@
            && t != "array"@ && t != "null"@ ==> matches_type(v, t),
{
    reveal_strlit("string");
    reveal_strlit("number");
    reveal_strlit("integer");
    reveal_strlit("boolean");
    reveal_strlit("object");
    reveal_strlit("array");
    reveal_strlit("null");
    assert("string"@[0] == 's' && "number"@[0] == 'n' && "integer"@[0] == 'i');
    assert("boolean"@[0] == 'b' && "object"@[0] == 'o' && "array"@[0] == 'a');
    assert("null"@.len() == 4 && "number"@.len() == 6);
    if t == "object"@ {
        assert(t != "string"@ && t != "number"@ && t != "integer"@ && t != "boolean"@);
    }
    if t == "array"@ {
        assert(t != "string"@ && t != "number"@ && t != "integer"@ && t != "boolean"@ && t
            != "object"@);
    }
    if t == "null"@ {
        assert(t != "string"@ && t != "number"@ && t != "integer"@ && t != "boolean"@ && t
            != "object"@ && t != "array"@);
    }
}

/// Whether `v` has the JSON Schema type `expected_type`.
pub fn value_matches_type(v: &JsonValue, expected_type: &str) -> (r: bool)
    ensures
        r == matches_type(*v, expected_type@),
        expected_type@ == "string"@ ==> (r <==> *v is String),
        expected_type@ == "number"@ ==> (r <==> *v is Number),
        expected_type@ == "integer"@ ==> (r <==> *v is Number),
        expected_type@ == "boolean"@ ==> (r <==> *v is Bool),
        expected_type@ == "object"@ ==> (r <==> *v is Object),
        expected_type@ == "array"@ ==> (r <==> *v is Array),
        expected_type@ == "null"@ ==> (r <==> *v is Null),
{
    proof {
        lemma_type_keywords(*v, expected_type@);
    }
    if str_eq(expected_type, "string") {
        matches!(v, JsonValue::String(..))
    } else if str_eq(expected_type, "number") || str_eq(expected_type, "integer") {
        matches!(v, JsonValue::Number(..))
    } else if str_eq(expected_type, "boolean") {
        matches!(v, JsonValue::Bool(..))
    } else if str_eq(expected_type, "object") {
        matches!(v, JsonValue::Object(..))
    } else if str_eq(expected_type, "array") {
        matches!(v, JsonValue::Array(..))
    } else if str_eq(expected_type, "null") {
        matches!(v, JsonValue::Null)
    } else {
        true
    }
}

/// The keys of `m` in order, separated by `", "`.
pub fn join_member_keys(m: &Vec<(String, JsonValue)>) -> (r: String)
    ensures
        r@ == join_keys(m@),
{
    let mut r = String::new();
    let mut i: usize = 0;
    assert(m@.subrange(0, m.len() as int) =~= m@);
    while i < m.len()
        invariant
            i <= m.len(),
            r@ == join_keys(m@.take(i as int)),
        decreases m.len() - i,
    {
        assert(m@.take(i + 1).drop_last() =~= m@.take(i as int));
        if i > 0 {
            push_str(&mut r, ", ");
        }
        push_str(&mut r, m[i].0.as_str());
        proof {
            if i == 0 {
                assert(r@ =~= m@.take(1)[0].0@);
            } else {
                assert(r@ =~= join_keys(m@.take(i as int)) + ", "@ + m@.take(i + 1).last().0@);
            }
        }
        i = i + 1;
    }
    assert(m@.take(m.len() as int) =~= m@);
    r
}

/// Position in `args` of the first key that `props` lacks.
fn find_unexpected(args: &Vec<(String, JsonValue)>, props: &Vec<(String, JsonValue)>) -> (r:
    Option<usize>)
    ensures
        match r {
            Some(i) => i < args.len() && first_unexpected(args@, props@) == Some(args@[i as int].0@),
            None => first_unexpected(args@, props@) is None,
        },
{
    let mut i: usize = 0;
    assert(args@.subrange(0, args.len() as int) =~= args@);
    while i < args.len()
        invariant
            i <= args.len(),
            first_unexpected(args@, props@) == first_unexpected(
                args@.subrange(i as int, args.len() as int),
                props@,
            ),
        decreases args.len() - i,
    {
        let ghost rest = args@.subrange(i as int, args.len() as int);
        assert(rest.drop_first() =~= args@.subrange(i + 1, args.len() as int));
        let k = key_index(props, args[i].0.as_str());
        if k >= props.len() {
            return Some(i);
        }
        i = i + 1;
    }
    None
}

/// Position in `reqs` of the first required name that `obj` lacks.
fn find_missing(reqs: &Vec<JsonValue>, obj: &Vec<(String, JsonValue)>) -> (r: Option<usize>)
    ensures
        match r {
            Some(i) => i < reqs.len() && reqs@[i as int] is String && first_missing(reqs@, obj@)
                == Some(reqs@[i as int]->String_0@),
            None => first_missing(reqs@, obj@) is None,
        },
{
    let mut i: usize = 0;
    assert(reqs@.subrange(0, reqs.len() as int) =~= reqs@);
    while i < reqs.len()
        invariant
            i <= reqs.len(),
            first_missing(reqs@, obj@) == first_missing(
                reqs@.subrange(i as int, reqs.len() as int),
                obj@,
            ),
        decreases reqs.len() - i,
    {
        let ghost rest = reqs@.subrange(i as int, reqs.len() as int);
        assert(rest.drop_first() =~= reqs@.subrange(i + 1, reqs.len() as int));
        match &reqs[i] {
            JsonValue::String(n) => {
                let k = key_index(obj, n.as_str());
                if k >= obj.len() {
                    return Some(i);
                }
            },
            _ => {},
        }
        i = i + 1;
    }
    None
}

/// The type a property schema asks for; `string` when it names none.
fn property_type(prop_schema: &JsonValue) -> (r: &str)
    ensures
        r@ == expected_type(*prop_schema),
{
    match get_str_field(prop_schema, "type") {
        Some(t) => t.as_str(),
        None => "string",
    }
}

/// Position in `props` of the first property whose value in `args` has the
/// wrong type, with the position of that value in `args`.
fn find_mistyped(props: &Vec<(String, JsonValue)>, args: &Vec<(String, JsonValue)>) -> (r: Option<
    (usize, usize),
>)
    ensures
        match r {
            Some((i, j)) => i < props.len() && j < args.len() && first_mistyped(props@, args@)
                == Some(
                (props@[i as int].0@, expected_type(props@[i as int].1), args@[j as int].1),
            ),
            None => first_mistyped(props@, args@) is None,
        },
{
    let mut i: usize = 0;
    assert(props@.subrange(0, props.len() as int) =~= props@);
    while i < props.len()
        invariant
            i <= props.len(),
            first_mistyped(props@, args@) == first_mistyped(
                props@.subrange(i as int, props.len() as int),
                args@,
            ),
        decreases props.len() - i,
    {
        let ghost rest = props@.subrange(i as int, props.len() as int);
        assert(rest.drop_first() =~= props@.subrange(i + 1, props.len() as int));
        let j = key_index(args, props[i].0.as_str());
        if j < args.len() {
            let t = property_type(&props[i].1);
            if !value_matches_type(&args[j].1, t) {
                return Some((i, j));
            }
        }
        i = i + 1;
    }
    None
}

/// Checks tool arguments against the tool's input schema.
///
/// A missing or empty schema accepts any object (or null).  Otherwise the
/// schema must be an object whose `type`, when given, is `object`; the
/// arguments must be an object; with `additionalProperties: false` every
/// argument must be a declared property; every `required` name must be
/// present; and every present property must have its declared type
/// (`string` when none is declared).  The first failing check gives the
/// error, worded for the model that produced the arguments.
pub fn validate_arguments(schema: &JsonValue, arguments: &JsonValue) -> (r: Result<(), String>)
    ensures
        match arguments_error(*schema, *arguments) {
            None => r is Ok,
            Some(m) => r matches Err(e) && e@ == m,
        },
{
    let no_params = match schema {
        JsonValue::Null => true,
        JsonValue::Object(m) => m.len() == 0,
        _ => false,
    };
    if no_params {
        return match arguments {
            JsonValue::Null => Ok(()),
            JsonValue::Object(_) => Ok(()),
            _ => Err(string_of("arguments must be a JSON object (even empty)")),
        };
    }
    if !matches!(schema, JsonValue::Object(_)) {
        return Err(string_of("inputSchema must be a JSON object"));
    }
    match get_str_field(schema, "type") {
        Some(t) => {
            if !str_eq(t.as_str(), "object") {
                let mut e = string_of("invalid tool schema: expected type 'object', got '");
                push_str(&mut e, t.as_str());
                push_str(&mut e, "'");
                return Err(e);
            }
        },
        None => {},
    }
    let a = match arguments {
        JsonValue::Object(a) => a,
        _ => {
            return Err(
                string_of(
                    "arguments must be a JSON object matching the tool's input schema. Provide parameters as key-value pairs.",
                ),
            );
        },
    };
    let allow_additional = match get_bool_field(schema, "additionalProperties") {
        Some(b) => b,
        None => true,
    };
    if !allow_additional {
        match get_field(schema, "properties") {
            Some(JsonValue::Object(p)) => {
                match find_unexpected(a, p) {
                    Some(i) => {
                        let mut e = string_of("unexpected parameter '");
                        push_str(&mut e, a[i].0.as_str());
                        push_str(&mut e, "'. Allowed parameters: [");
                        let keys = join_member_keys(p);
                        push_str(&mut e, keys.as_str());
                        push_str(&mut e, "]");
                        return Err(e);
                    },
                    None => {},
                }
            },
            _ => {},
        }
    }
    match get_field(schema, "required") {
        Some(JsonValue::Array(reqs)) => {
            match find_missing(reqs, a) {
                Some(i) => {
                    match &reqs[i] {
                        JsonValue::String(n) => {
                            let mut e = string_of("missing required parameter '");
                            push_str(&mut e, n.as_str());
                            push_str(
                                &mut e,
                                "'. Please provide a value for this parameter.",
                            );
                            return Err(e);
                        },
                        _ => {},
                    }
                },
                None => {},
            }
        },
        _ => {},
    }
    match get_field(schema, "properties") {
        Some(JsonValue::Object(p)) => {
            match find_mistyped(p, a) {
                Some((i, j)) => {
                    let mut e = string_of("parameter '");
                    push_str(&mut e, p[i].0.as_str());
                    push_str(&mut e, "' must be of type '");
                    push_str(&mut e, property_type(&p[i].1));
                    push_str(&mut e, "', but received '");
                    push_str(&mut e, json_type_name(&a[j].1));
                    push_str(&mut e, "'. Please correct the value.");
                    return Err(e);
                },
                None => {},
            }
        },
        _ => {},
    }
    Ok(())
}

/// The error `validate_json_schema` reports for `data`, or `None`.
pub open spec fn json_schema_error(schema: JsonValue, data: JsonValue) -> Option<Seq<char>> {
    if data is Null {
        Some("JSON is null"@)
    } else {
        match (field(schema, "required"@), data) {
            (Some(JsonValue::Array(r)), JsonValue::Object(o)) => match first_missing(r@, o@) {
                Some(n) => Some("Missing required field: "@ + n),
                None => None,
            },
            _ => None,
        }
    }
}

/// Checks that `data` is not null and, when it is an object, that it has
/// every field named in the schema's `required` list.
pub fn validate_json_schema(schema: &JsonValue, data: &JsonValue) -> (r: Result<(), String>)
    ensures
        match json_schema_error(*schema, *data) {
            None => r is Ok,
            Some(m) => r matches Err(e) && e@ == m,
        },
{
    if matches!(data, JsonValue::Null) {
        return Err(string_of("JSON is null"));
    }
    match (get_field(schema, "required"), data) {
        (Some(JsonValue::Array(reqs)), JsonValue::Object(o)) => {
            match find_missing(reqs, o) {
                Some(i) => {
                    match &reqs[i] {
                        JsonValue::String(n) => {
                            let mut e = string_of("Missing required field: ");
                            push_str(&mut e, n.as_str());
                            return Err(e);
                        },
                        _ => {},
                    }
                },
                None => {},
            }
        },
        _ => {},
    }
    Ok(())
}

/// Warnings for the required fields of `reqs` that the result `obj` lacks,
/// in order.
pub open spec fn required_warnings(
    reqs: Seq<JsonValue>,
    obj: Seq<(String, JsonValue)>,
    tool: Seq<char>,
) -> Seq<Seq<char>>
    decreases reqs.len(),
{
    if reqs.len() == 0 {
        Seq::empty()
    } else {
        required_warnings(reqs.drop_last(), obj, tool) + match reqs.last() {
            JsonValue::String(n) => if !has_key(obj, n@) {
                seq![
                    "output missing required field '"@ + n@ + "' per outputSchema | tool="@
                        + tool,
                ]
            } else {
                Seq::empty()
            },
            _ => Seq::empty(),
        }
    }
}

/// Warnings for the fields of the result `obj` whose type differs from the
/// one their property in `props` declares, in the order of `props`.
pub open spec fn type_warnings(
    props: Seq<(String, JsonValue)>,
    obj: Seq<(String, JsonValue)>,
    tool: Seq<char>,
) -> Seq<Seq<char>>
    decreases props.len(),
{
    if props.len() == 0 {
        Seq::empty()
    } else {
        let p = props.last();
        type_warnings(props.drop_last(), obj, tool) + match (
            lookup(obj, p.0@),
            str_field(p.1, "type"@),
        ) {
            (Some(v), Some(t)) => if !matches_type(v, t) {
                seq![
                    "output field '"@ + p.0@ + "' type mismatch: expected '"@ + t + "', got '"@
                        + json_kind_name(v) + "' | tool="@ + tool,
                ]
            } else {
                Seq::empty()
            },
            _ => Seq::empty(),
        }
    }
}

/// The warnings that checking `result` against the output schema `schema`
/// of tool `tool` gives, in order.  An absent or empty schema gives none.
pub open spec fn output_warnings(schema: JsonValue, result: JsonValue, tool: Seq<char>) -> Seq<
    Seq<char>,
> {
    if schema is Null || is_empty_object(schema) {
        Seq::empty()
    } else if !(schema is Object) {
        seq!["outputSchema is not a valid JSON object | tool="@ + tool]
    } else {
        match result {
            JsonValue::Object(o) => {
                let req = match field(schema, "required"@) {
                    Some(JsonValue::Array(r)) => required_warnings(r@, o@, tool),
                    _ => Seq::empty(),
                };
                let typ = match field(schema, "properties"@) {
                    Some(JsonValue::Object(p)) => type_warnings(p@, o@, tool),
                    _ => Seq::empty(),
                };
                req + typ
            },
            _ => seq!["output is not an object, expected per outputSchema | tool="@ + tool],
        }
    }
}

fn push_required_warnings(
    out: &mut Vec<String>,
    reqs: &Vec<JsonValue>,
    obj: &Vec<(String, JsonValue)>,
    tool: &str,
)
    ensures
        final(out)@.map_values(|s: String| s@) == old(out)@.map_values(|s: String| s@)
            + required_warnings(reqs@, obj@, tool@),
{
    let ghost start = old(out)@.map_values(|s: String| s@);
    let mut i: usize = 0;
    while i < reqs.len()
        invariant
            i <= reqs.len(),
            out@.map_values(|s: String| s@) == start + required_warnings(
                reqs@.take(i as int),
                obj@,
                tool@,
            ),
        decreases reqs.len() - i,
    {
        assert(reqs@.take(i + 1).drop_last() =~= reqs@.take(i as int));
        let ghost before = out@.map_values(|s: String| s@);
        match &reqs[i] {
            JsonValue::String(n) => {
                if key_index(obj, n.as_str()) >= obj.len() {
                    let mut w = string_of("output missing required field '");
                    push_str(&mut w, n.as_str());
                    push_str(&mut w, "' per outputSchema | tool=");
                    push_str(&mut w, tool);
                    out.push(w);
                    assert(out@.map_values(|s: String| s@) =~= before.push(w@));
                } else {
                    assert(out@.map_values(|s: String| s@) =~= before);
                }
            },
            _ => {
                assert(out@.map_values(|s: String| s@) =~= before);
            },
        }
        i = i + 1;
    }
    assert(reqs@.take(reqs.len() as int) =~= reqs@);
}

fn push_type_warnings(
    out: &mut Vec<String>,
    props: &Vec<(String, JsonValue)>,
    obj: &Vec<(String, JsonValue)>,
    tool: &str,
)
    ensures
        final(out)@.map_values(|s: String| s@) == old(out)@.map_values(|s: String| s@)
            + type_warnings(props@, obj@, tool@),
{
    let ghost start = old(out)@.map_values(|s: String| s@);
    let mut i: usize = 0;
    while i < props.len()
        invariant
            i <= props.len(),
            out@.map_values(|s: String| s@) == start + type_warnings(
                props@.take(i as int),
                obj@,
                tool@,
            ),
        decreases props.len() - i,
    {
        assert(props@.take(i + 1).drop_last() =~= props@.take(i as int));
        let ghost before = out@.map_values(|s: String| s@);
        let j = key_index(obj, props[i].0.as_str());
        let t = get_str_field(&props[i].1, "type");
        let mut pushed = false;
        if j < obj.len() {
            match t {
                Some(t) => {
                    if !value_matches_type(&obj[j].1, t.as_str()) {
                        let mut w = string_of("output field '");
                        push_str(&mut w, props[i].0.as_str());
                        push_str(&mut w, "' type mismatch: expected '");
                        push_str(&mut w, t.as_str());
                        push_str(&mut w, "', got '");
                        push_str(&mut w, json_type_name(&obj[j].1));
                        push_str(&mut w, "' | tool=");
                        push_str(&mut w, tool);
                        out.push(w);
                        pushed = true;
                        assert(out@.map_values(|s: String| s@) =~= before.push(w@));
                    }
                },
                None => {},
            }
        }
        if !pushed {
            assert(out@.map_values(|s: String| s@) =~= before);
        }
        i = i + 1;
    }
    assert(props@.take(props.len() as int) =~= props@);
}

/// The warnings of checking the result `result` of tool `tool_name`
/// against its output schema, in the order they are reported: missing
/// required fields, then fields of the wrong type.  The check is advisory:
/// callers log the warnings and keep the result.
pub fn validate_output(schema: &JsonValue, result: &JsonValue, tool_name: &str) -> (r: Vec<
    String,
>)
    ensures
        r@.map_values(|s: String| s@) == output_warnings(*schema, *result, tool_name@),
{
    let mut out: Vec<String> = Vec::new();
    let no_schema = match schema {
        JsonValue::Null => true,
        JsonValue::Object(m) => m.len() == 0,
        _ => false,
    };
    if no_schema {
        assert(out@.map_values(|s: String| s@) =~= Seq::<Seq<char>>::empty());
        return out;
    }
    if !matches!(schema, JsonValue::Object(_)) {
        let mut w = string_of("outputSchema is not a valid JSON object | tool=");
        push_str(&mut w, tool_name);
        out.push(w);
        assert(out@.map_values(|s: String| s@) =~= seq![w@]);
        return out;
    }
    let o = match result {
        JsonValue::Object(o) => o,
        _ => {
            let mut w = string_of("output is not an object, expected per outputSchema | tool=");
            push_str(&mut w, tool_name);
            out.push(w);
            assert(out@.map_values(|s: String| s@) =~= seq![w@]);
            return out;
        },
    };
    assert(out@.map_values(|s: String| s@) =~= Seq::<Seq<char>>::empty());
    match get_field(schema, "required") {
        Some(JsonValue::Array(reqs)) => {
            push_required_warnings(&mut out, reqs, o, tool_name);
        },
        _ => {},
    }
    match get_field(schema, "properties") {
        Some(JsonValue::Object(p)) => {
            push_type_warnings(&mut out, p, o, tool_name);
        },
        _ => {},
    }
    out
}

/// Whether `a` and `b` are the same JSON value: same kind, same text,
/// same items and members in the same order.
pub open spec fn json_same(a: JsonValue, b: JsonValue) -> bool
    decreases a,
{
    match (a, b) {
        (JsonValue::Null, JsonValue::Null) => true,
        (JsonValue::Bool(x), JsonValue::Bool(y)) => x == y,
        (JsonValue::Number(x), JsonValue::Number(y)) => x@ == y@,
        (JsonValue::String(x), JsonValue::String(y)) => x@ == y@,
        (JsonValue::Array(x), JsonValue::Array(y)) => x@.len() == y@.len() && forall|i: int|
            0 <= i < x@.len() ==> json_same(#[trigger] x@[i], y@[i]),
        (JsonValue::Object(x), JsonValue::Object(y)) => x@.len() == y@.len() && forall|i: int|
            #![trigger x@[i]]
            0 <= i < x@.len() ==> x@[i].0@ == y@[i].0@ && json_same(x@[i].1, y@[i].1),
        _ => false,
    }
}

/// A deep copy of a JSON value.
pub fn copy_json(v: &JsonValue) -> (r: JsonValue)
    ensures
        json_same(*v, r),
    decreases v,
{
    match v {
        JsonValue::Null => JsonValue::Null,
        JsonValue::Bool(b) => JsonValue::Bool(*b),
        JsonValue::Number(n) => JsonValue::Number(n.clone()),
        JsonValue::String(s) => JsonValue::String(s.clone()),
        JsonValue::Array(items) => {
            let mut out: Vec<JsonValue> = Vec::new();
            let mut i: usize = 0;
            while i < items.len()
                invariant
                    v is Array,
                    v->Array_0 == *items,
                    i <= items.len(),
                    out@.len() == i,
                    forall|j: int| 0 <= j < i ==> json_same(#[trigger] items@[j], out@[j]),
                decreases items.len() - i,
            {
                assert(decreases_to!(*v => v->Array_0));
                assert(decreases_to!(v->Array_0 => items@[i as int]));
                let c = copy_json(&items[i]);
                out.push(c);
                i = i + 1;
            }
            JsonValue::Array(out)
        },
        JsonValue::Object(members) => {
            let mut out: Vec<(String, JsonValue)> = Vec::new();
            let mut i: usize = 0;
            while i < members.len()
                invariant
                    v is Object,
                    v->Object_0 == *members,
                    i <= members.len(),
                    out@.len() == i,
                    forall|j: int|
                        #![trigger members@[j]]
                        0 <= j < i ==> members@[j].0@ == out@[j].0@ && json_same(
                            members@[j].1,
                            out@[j].1,
                        ),
                decreases members.len() - i,
            {
                assert(decreases_to!(*v => v->Object_0));
                assert(decreases_to!(v->Object_0 => members@[i as int].1));
                let k = members[i].0.clone();
                let c = copy_json(&members[i].1);
                out.push((k, c));
                i = i + 1;
            }
            let r = JsonValue::Object(out);
            assert(json_same(*v, r));
            r
        },
    }
}

} // verus!
