//! JSON documents as text, read and written by serde_json.
use vstd::prelude::*;
use crate::json::{Json, JsonNumber, JsonV};
use serde_json::Value;

verus! {

/// A document as serde_json holds it (`serde_json::Value`), kept as is.
#[verifier::external_type_specification]
#[verifier::external_body]
pub struct ExSerdeValue(serde_json::Value);

/// The document serde_json reads from a text, or nothing when the text is not JSON.
pub uninterp spec fn json_text_parse(text: Seq<char>) -> Option<JsonV>;

/// The compact text serde_json writes for a document.
pub uninterp spec fn json_compact(v: JsonV) -> Seq<char>;

/// A document as `serde_json::Value`, value for value.
#[verifier::external_body]
pub(crate) fn to_serde(v: &Json) -> Value {
    match v {
        Json::Null => Value::Null,
        Json::Bool(b) => Value::Bool(*b),
        Json::Number(JsonNumber::PosInt(u)) => Value::from(*u),
        Json::Number(JsonNumber::NegInt(i)) => Value::from(*i),
        Json::Number(JsonNumber::Float(t)) => t.parse::<serde_json::Number>().map(Value::Number).unwrap_or(Value::Null),
        Json::String(s) => Value::String(s.clone()),
        Json::Array(items) => Value::Array(items.iter().map(to_serde).collect()),
        Json::Object(entries) => Value::Object(entries.iter().map(|(k, x)| (k.clone(), to_serde(x))).collect()),
    }
}

/// A `serde_json::Value` as a document, value for value.
#[verifier::external_body]
pub(crate) fn from_serde(v: &Value) -> Json {
    match v {
        Value::Null => Json::Null,
        Value::Bool(b) => Json::Bool(*b),
        Value::Number(n) => Json::Number(n.as_u64().map(JsonNumber::PosInt).or_else(|| n.as_i64().map(JsonNumber::NegInt)).unwrap_or_else(|| JsonNumber::Float(n.to_string()))),
        Value::String(s) => Json::String(s.clone()),
        Value::Array(items) => Json::Array(items.iter().map(from_serde).collect()),
        Value::Object(map) => Json::Object(map.iter().map(|(k, x)| (k.clone(), from_serde(x))).collect()),
    }
}

/// `serde_json::from_str::<Value>(text)`: the document a text holds, if it is JSON.
#[verifier::external_body]
pub(crate) fn parse_json(text: &str) -> (r: Option<Json>)
    ensures
        match r {
            Some(v) => json_text_parse(text@) == Some(v@),
            None => json_text_parse(text@) is None,
        },
{
    serde_json::from_str::<serde_json::Value>(text).ok().map(|v| from_serde(&v))
}

/// The document serde_yaml reads from a YAML text, as JSON, or nothing when
/// the text is not YAML that JSON can hold.
pub uninterp spec fn yaml_text_parse(text: Seq<char>) -> Option<JsonV>;

/// `serde_yaml::from_str::<serde_json::Value>(text)`: the document a YAML
/// text holds, if it is one that JSON can hold.
#[verifier::external_body]
pub(crate) fn parse_yaml(text: &str) -> (r: Option<Json>)
    ensures
        match r {
            Some(v) => yaml_text_parse(text@) == Some(v@),
            None => yaml_text_parse(text@) is None,
        },
{
    serde_yaml::from_str::<serde_json::Value>(text).ok().map(|v| from_serde(&v))
}

/// `serde_json::to_string`: the compact text of a document.
#[verifier::external_body]
pub(crate) fn json_text(v: &Json) -> (s: String)
    ensures
        s@ == json_compact(v@),
{
    serde_json::to_string(&to_serde(v)).unwrap_or_default()
}

}
