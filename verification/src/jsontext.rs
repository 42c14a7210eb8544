//! JSON text: reading and pretty-printing with `serde_json`.

use vstd::prelude::*;
use crate::json::{json_wf, JsonValue, JsonView};

verus! {

#[verifier::external_type_specification]
#[verifier::external_body]
pub struct ExSerdeValue(serde_json::Value);

/// What `serde_json::from_str::<serde_json::Value>` reads from `text`:
/// `None` where it reports an error.
pub uninterp spec fn json_parse(text: Seq<char>) -> Option<JsonView>;

/// The message of the error that `serde_json::from_str` reports for `text`.
pub uninterp spec fn json_parse_error(text: Seq<char>) -> Seq<char>;

/// The text that `serde_json::to_string_pretty` prints for `j`.
pub uninterp spec fn json_pretty(j: JsonView) -> Seq<char>;

/// Reads JSON text with `serde_json::from_str` into a `serde_json::Value`,
/// and hands it over as a [`JsonValue`]. Claims: the result is the named
/// parse of the text, or the named error message; a value read is
/// well-formed (a `serde_json` map holds each key once).
#[verifier::external_body]
pub fn parse_json(text: &str) -> (r: Result<JsonValue, String>)
    ensures
        r is Ok <==> json_parse(text@) is Some,
        r matches Ok(v) ==> json_parse(text@) == Some(v@) && json_wf(v@),
        r matches Err(e) ==> e@ == json_parse_error(text@),
{
    match serde_json::from_str::<serde_json::Value>(text) {
        Ok(v) => Ok(from_serde(v)),
        Err(e) => Err(e.to_string()),
    }
}

/// Prints a JSON value with `serde_json::to_string_pretty`. Claims: the text
/// is the named pretty print of the value. Printing a `serde_json::Value`
/// into memory does not fail: its map keys are strings, and writing to a
/// `Vec` cannot fail.
#[verifier::external_body]
pub fn pretty_json(j: &JsonValue) -> (s: String)
    ensures
        s@ == json_pretty(j@),
{
    serde_json::to_string_pretty(&to_serde(j)).expect("printing a JSON value into memory cannot fail")
}

/// The conversion of a `serde_json::Value` into a [`JsonValue`], one arm per
/// variant; used by [`parse_json`].
#[verifier::external_body]
fn from_serde(v: serde_json::Value) -> JsonValue {
    match v {
        serde_json::Value::Null => JsonValue::Null,
        serde_json::Value::Bool(b) => JsonValue::Bool(b),
        serde_json::Value::Number(n) => JsonValue::Number(n),
        serde_json::Value::String(s) => JsonValue::Str(s),
        serde_json::Value::Array(a) => JsonValue::Array(a.into_iter().map(from_serde).collect()),
        serde_json::Value::Object(m) => JsonValue::Object(m.into_iter().map(|(k, x)| (k, from_serde(x))).collect()),
    }
}

/// The conversion of a [`JsonValue`] into a `serde_json::Value`,
/// one arm per variant; used by [`pretty_json`].
#[verifier::external_body]
fn to_serde(j: &JsonValue) -> serde_json::Value {
    match j {
        JsonValue::Null => serde_json::Value::Null,
        JsonValue::Bool(b) => serde_json::Value::Bool(*b),
        JsonValue::Number(n) => serde_json::Value::Number(n.clone()),
        JsonValue::Str(s) => serde_json::Value::String(s.clone()),
        JsonValue::Array(a) => serde_json::Value::Array(a.iter().map(to_serde).collect()),
        JsonValue::Object(m) => serde_json::Value::Object(m.iter().map(|(k, x)| (k.clone(), to_serde(x))).collect()),
    }
}

} // verus!
