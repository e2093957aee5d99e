use vstd::prelude::*;

use crate::error::OpenRouterError;
use crate::json::JsonValue;
use crate::response::OpenRouterResponse;

verus! {

/// `serde_json::Value`, declared so that a signature can carry it. The
/// crate keeps such values opaque: the one function that takes one turns
/// it straight into a `JsonValue`.
#[verifier::external_type_specification]
#[verifier::external_body]
pub struct ExSerdeValue(serde_json::Value);

/// What decoding a text as JSON yields, held as a `JsonValue`: `None`
/// where the text is not valid JSON. Decoding is a function of the text
/// alone, so the result carries a name rather than a transcription of the
/// JSON grammar.
pub uninterp spec fn json_parse(text: Seq<char>) -> Option<JsonValue>;

/// Relies on `serde_json::Value`: its six variants map one for one onto
/// the variants of `JsonValue`; a number is carried over as its display
/// text, which is the form `JsonValue` holds numbers in.
#[verifier::external_body]
fn json_value_from_serde(v: serde_json::Value) -> JsonValue {
    match v {
        serde_json::Value::Null => JsonValue::Null,
        serde_json::Value::Bool(b) => JsonValue::Bool(b),
        serde_json::Value::Number(n) => JsonValue::Num(n.to_string()),
        serde_json::Value::String(s) => JsonValue::Str(s),
        serde_json::Value::Array(a) => JsonValue::Arr(
            a.into_iter().map(json_value_from_serde).collect(),
        ),
        serde_json::Value::Object(m) => JsonValue::Obj(
            m.into_iter().map(|(k, w)| (k, json_value_from_serde(w))).collect(),
        ),
    }
}

/// Relies on `serde_json::from_str::<serde_json::Value>`: it decodes any
/// valid JSON text into the matching `Value` tree, fails on any other
/// text, and depends on nothing but the text.
#[verifier::external_body]
fn parse_json(text: &str) -> (r: Option<JsonValue>)
    ensures
        r == json_parse(text@),
{
    match serde_json::from_str::<serde_json::Value>(text) {
        Ok(v) => Some(json_value_from_serde(v)),
        Err(_) => None,
    }
}

/// Decodes a reply body into a response envelope. The body must decode as
/// a JSON object, a mapping from string keys to values; any other body is
/// a `SerializationError`.
pub fn decode_envelope(text: &str) -> (r: Result<OpenRouterResponse, OpenRouterError>)
    ensures
        (match json_parse(text@) {
            Some(v) => (match v {
                JsonValue::Obj(m) => r matches Ok(resp) && resp.response_map == m,
                _ => r == Err::<OpenRouterResponse, OpenRouterError>(
                    OpenRouterError::SerializationError,
                ),
            }),
            None => r == Err::<OpenRouterResponse, OpenRouterError>(
                OpenRouterError::SerializationError,
            ),
        }),
{
    match parse_json(text) {
        Some(JsonValue::Obj(m)) => Ok(OpenRouterResponse::new(m)),
        _ => Err(OpenRouterError::SerializationError),
    }
}

} // verus!
