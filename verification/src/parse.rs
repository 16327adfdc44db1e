//! Reading JSON text, by way of `serde_json`.

use crate::json::{Json, JsonValue, Number};
use serde_json::Value;
use vstd::prelude::*;

verus! {

#[verifier::external_type_specification]
#[verifier::external_body]
pub struct ExValue(Value);

/// Why a text could not be read as JSON.
#[derive(Debug)]
pub struct ParseError {
    /// The reader's own words, with the line and column where it gave up.
    pub message: String,
}

/// What `serde_json::from_str` makes of a text: the value that it reads from
/// it, or the message of the error that it gives. The reader works on the text
/// alone, so the same text always gives the same result.
pub uninterp spec fn parsed(text: Seq<char>) -> Result<JsonValue, Seq<char>>;

/// The model of what the reader returned.
pub open spec fn read_model(r: Result<Json, String>) -> Result<JsonValue, Seq<char>> {
    match r {
        Ok(json) => Ok(json@),
        Err(message) => Err(message@),
    }
}

/// Rebuilds a `serde_json::Value` as a [`Json`], one arm for each variant.
///
/// A number that `Number::as_i128` knows is an integer and becomes `Int`. Any
/// other number is held as a double, for which `Number::as_f64` never fails,
/// and becomes `Float` with that double's bits. The items of an array and the
/// members of an object come in the order in which `serde_json` hands them
/// out.
#[verifier::external_body]
fn from_value(value: Value) -> Json {
    match value {
        Value::Null => Json::Null,
        Value::Bool(b) => Json::Bool(b),
        Value::Number(n) => Json::Number(
            n.as_i128().map_or_else(|| Number::Float(n.as_f64().unwrap().to_bits()), Number::Int),
        ),
        Value::String(s) => Json::String(s),
        Value::Array(a) => Json::Array(a.into_iter().map(from_value).collect()),
        Value::Object(m) => Json::Object(m.into_iter().map(|(k, v)| (k, from_value(v))).collect()),
    }
}

/// Calls `serde_json::from_str` to read the text as one `serde_json::Value`.
///
/// The contract claims that the result is [`parsed`] of the text, and that a
/// value that was read is well formed: `serde_json` keeps an object's members
/// in a map, so no key occurs twice; its integers lie between `i64::MIN` and
/// `u64::MAX`; its doubles are finite. On failure the message is the error's
/// `Display` text.
#[verifier::external_body]
fn read_text(text: &str) -> (r: Result<Json, String>)
    ensures
        read_model(r) == parsed(text@),
        r matches Ok(json) ==> json.wf(),
{
    match serde_json::from_str::<Value>(text) {
        Ok(value) => Ok(from_value(value)),
        Err(error) => Err(error.to_string()),
    }
}

/// What [`parse`] returns for a text, over [`parsed`].
pub open spec fn parse_model(r: Result<Json, ParseError>) -> Result<JsonValue, Seq<char>> {
    match r {
        Ok(json) => Ok(json@),
        Err(error) => Err(error.message@),
    }
}

/// Reads a text as JSON.
pub fn parse(text: &str) -> (r: Result<Json, ParseError>)
    ensures
        parse_model(r) == parsed(text@),
        r matches Ok(json) ==> json.wf(),
{
    match read_text(text) {
        Ok(json) => Ok(json),
        Err(message) => Err(ParseError { message }),
    }
}

} // verus!
