//! The JSON value type of `serde_json`, carried opaquely through the
//! library, and the reading and writing of JSON text.
use vstd::prelude::*;
use serde_json::Value;
use crate::json::JsonValue;

verus! {

#[verifier::external_type_specification]
#[verifier::external_body]
pub struct ExJsonValue(serde_json::Value);

/// Whether a JSON value is `null` (`serde_json::Value::is_null`).
pub uninterp spec fn json_is_null(v: Value) -> bool;

/// `serde_json::Value::Null`; `is_null` holds of it, as its documentation shows.
#[verifier::external_body]
pub(crate) fn json_null() -> (r: Value)
    ensures
        json_is_null(r),
{
    Value::Null
}

/// `<serde_json::Value as Clone>::clone`, which the derive makes a deep,
/// equal copy.
pub assume_specification[ <serde_json::Value as Clone>::clone ](v: &serde_json::Value) -> (r: serde_json::Value)
    ensures
        r == *v,
;

/// What `serde_json::from_str` makes of `text`: the value (numbers kept as
/// the text `serde_json` writes for them), or the parser's error message.
pub uninterp spec fn json_parse(text: Seq<char>) -> Result<JsonValue, Seq<char>>;

/// The text `serde_json::to_string_pretty` writes for `v` (empty when it
/// cannot write it); a number whose text is not a JSON number is written as
/// `null`.
pub uninterp spec fn pretty_json(v: JsonValue) -> Seq<char>;

/// The text `serde_json::to_string` writes for `v`, with no whitespace
/// (empty when it cannot write it); a number whose text is not a JSON
/// number is written as `null`.
pub uninterp spec fn compact_json(v: JsonValue) -> Seq<char>;

/// `serde_json::Value::String` of the text `t`.
pub uninterp spec fn json_text_value(t: Seq<char>) -> Value;

/// The library's value for a `serde_json` value: the same shape, numbers
/// by their text.
#[verifier::external_body]
fn json_of_value(v: Value) -> JsonValue {
    match v {
        Value::Null => JsonValue::Null,
        Value::Bool(b) => JsonValue::Bool(b),
        Value::Number(n) => JsonValue::Number(n.to_string()),
        Value::String(t) => JsonValue::String(t),
        Value::Array(a) => JsonValue::Array(a.into_iter().map(json_of_value).collect()),
        Value::Object(m) => JsonValue::Object(m.into_iter().map(|(k, x)| (k, json_of_value(x))).collect()),
    }
}

/// The `serde_json` value for the library's value: the same shape, numbers
/// read back from their text (`null` for a text that is no number).
#[verifier::external_body]
fn value_of_json(v: &JsonValue) -> Value {
    match v {
        JsonValue::Null => Value::Null,
        JsonValue::Bool(b) => Value::Bool(*b),
        JsonValue::Number(t) => t.parse::<serde_json::Number>().map(Value::Number).unwrap_or(Value::Null),
        JsonValue::String(t) => Value::String(t.clone()),
        JsonValue::Array(a) => Value::Array(a.iter().map(value_of_json).collect()),
        JsonValue::Object(m) => Value::Object(m.iter().map(|(k, x)| (k.clone(), value_of_json(x))).collect()),
    }
}

/// `serde_json::Value::String(t)`: the JSON string of `t`.
#[verifier::external_body]
pub fn text_json_value(t: String) -> (r: Value)
    ensures
        r == json_text_value(t@),
{
    Value::String(t)
}

/// `serde_json::from_str`: the JSON value `text` writes, or the parser's
/// error message.
#[verifier::external_body]
pub fn parse_json(text: &str) -> (r: Result<JsonValue, String>)
    ensures
        match r {
            Ok(v) => json_parse(text@) == Ok::<JsonValue, Seq<char>>(v),
            Err(e) => json_parse(text@) == Err::<JsonValue, Seq<char>>(e@),
        },
{
    serde_json::from_str::<Value>(text).map(json_of_value).map_err(|e| e.to_string())
}

/// `serde_json::to_string_pretty`: the indented JSON text of `v` (empty when
/// it cannot be written).
#[verifier::external_body]
pub fn to_pretty(v: &JsonValue) -> (r: String)
    ensures
        r@ == pretty_json(*v),
{
    serde_json::to_string_pretty(&value_of_json(v)).unwrap_or_default()
}

/// `serde_json::to_string`: the JSON text of `v` with no whitespace (empty
/// when it cannot be written).
#[verifier::external_body]
pub fn to_compact(v: &JsonValue) -> (r: String)
    ensures
        r@ == compact_json(*v),
{
    serde_json::to_string(&value_of_json(v)).unwrap_or_default()
}

} // verus!
