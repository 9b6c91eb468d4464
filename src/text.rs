//! JSON text: reading it into a [`Json`] value and writing a value out,
//! both done by serde_json.
use vstd::prelude::*;
use crate::json::{CliError, Json};
use serde_json::Value;

verus! {

#[verifier::external_type_specification]
#[verifier::external_body]
pub struct ExValue(serde_json::Value);

/// The value that serde_json reads from a text, when the text is valid JSON.
pub uninterp spec fn parsed(text: Seq<char>) -> Option<Json>;

/// The compact JSON text that serde_json writes for a value.
pub uninterp spec fn compact_text(v: Json) -> Seq<char>;

/// The indented JSON text that serde_json writes for a value.
pub uninterp spec fn pretty_text(v: Json) -> Seq<char>;

/// Turns a serde_json value into the library's value, variant for variant.
#[verifier::external_body]
fn from_value(v: Value) -> Json {
    match v {
        Value::Null => Json::Null,
        Value::Bool(b) => Json::Bool(b),
        Value::Number(n) => Json::Number(n.to_string()),
        Value::String(s) => Json::Str(s),
        Value::Array(a) => Json::Array(a.into_iter().map(from_value).collect()),
        Value::Object(m) => Json::Object(m.into_iter().map(|(k, x)| (k, from_value(x))).collect()),
    }
}

/// Turns the library's value into a serde_json value, variant for variant.
/// A number whose text serde_json does not read as a number becomes null.
#[verifier::external_body]
fn to_value(j: &Json) -> Value {
    match j {
        Json::Null => Value::Null,
        Json::Bool(b) => Value::Bool(*b),
        Json::Number(n) => n.parse::<serde_json::Number>().map_or(Value::Null, Value::Number),
        Json::Str(s) => Value::String(s.clone()),
        Json::Array(a) => Value::Array(a.iter().map(to_value).collect()),
        Json::Object(es) => Value::Object(es.iter().map(|(k, x)| (k.clone(), to_value(x))).collect()),
    }
}

/// Relies on serde_json::from_str: reads a text as one JSON value, or
/// reports why it is not one.
#[verifier::external_body]
fn read_json(text: &str) -> (r: Result<Json, String>)
    ensures
        r is Ok <==> parsed(text@) is Some,
        r matches Ok(j) ==> parsed(text@) == Some(j),
{
    serde_json::from_str::<Value>(text).map(from_value).map_err(|e| e.to_string())
}

/// Relies on serde_json's `Display` for `Value`: the compact text of a value.
#[verifier::external_body]
fn write_compact(v: &Json) -> (r: String)
    ensures
        r@ == compact_text(*v),
{
    to_value(v).to_string()
}

/// Relies on serde_json::to_string_pretty: the indented text of a value,
/// which serde_json never fails to write for a `Value`.
#[verifier::external_body]
fn write_pretty(v: &Json) -> (r: String)
    ensures
        r@ == pretty_text(*v),
{
    serde_json::to_string_pretty(&to_value(v)).unwrap_or_default()
}

/// Reads a JSON document; text that is not JSON is an invalid source.
pub fn parse_json(text: &str) -> (r: Result<Json, CliError>)
    ensures
        match parsed(text@) {
            Some(j) => r == Ok::<Json, CliError>(j),
            None => r matches Err(CliError::InvalidSource(_)),
        },
{
    match read_json(text) {
        Ok(j) => Ok(j),
        Err(msg) => Err(CliError::InvalidSource(msg)),
    }
}

/// The compact JSON text of a value.
pub fn to_json_text(v: &Json) -> (r: String)
    ensures
        r@ == compact_text(*v),
{
    write_compact(v)
}

/// The indented JSON text of a value, as written to files.
pub fn to_json_pretty(v: &Json) -> (r: String)
    ensures
        r@ == pretty_text(*v),
{
    write_pretty(v)
}

} // verus!
