//! Trusted boundary to the JSON codec: parsing one frame's bytes into the
//! library's value model, and rendering a field-set back to bytes.

use crate::value::{fields_view, unique_names, Fields, FieldsV, JsonValue};
use vstd::prelude::*;

verus! {

#[verifier::external_type_specification]
#[verifier::external_body]
pub struct ExJsonValue(serde_json::Value);

/// What `serde_json::from_slice` parses a frame's bytes into, carried over to
/// the library's value model: `None` where the bytes are not one JSON object,
/// or hold a number outside `u64`.
pub uninterp spec fn parsed_fields(bytes: Seq<u8>) -> Option<FieldsV>;

/// What `serde_json::to_vec` renders a field-set as.
pub uninterp spec fn rendered_fields(fields: FieldsV) -> Seq<u8>;

/// Relies on serde_json::from_slice: parses exactly one JSON document from
/// the given bytes, or fails. The document is a map, so field names in the
/// result are unique.
#[verifier::external_body]
pub(crate) fn parse_fields(bytes: &Vec<u8>) -> (r: Option<Fields>)
    ensures
        r matches Some(f) ==> parsed_fields(bytes@) == Some(fields_view(f)) && unique_names(
            fields_view(f),
        ),
        r is None ==> parsed_fields(bytes@) is None,
{
    match serde_json::from_slice::<serde_json::Value>(bytes.as_slice()) {
        Ok(serde_json::Value::Object(m)) => m
            .into_iter()
            .map(|(k, v)| Some((k, import_value(v)?)))
            .collect(),
        _ => None,
    }
}

/// Relies on serde_json::Value: maps one parsed document node onto the
/// library's value model, arm by arm; numbers outside `u64` are refused.
#[verifier::external_body]
fn import_value(v: serde_json::Value) -> Option<JsonValue> {
    Some(
        match v {
            serde_json::Value::Null => JsonValue::Null,
            serde_json::Value::Bool(b) => JsonValue::Bool(b),
            serde_json::Value::Number(n) => JsonValue::UInt(n.as_u64()?),
            serde_json::Value::String(s) => JsonValue::Str(s),
            serde_json::Value::Array(a) => JsonValue::Arr(
                a.into_iter().map(import_value).collect::<Option<_>>()?,
            ),
            serde_json::Value::Object(m) => JsonValue::Obj(
                m.into_iter().map(|(k, x)| Some((k, import_value(x)?))).collect::<Option<_>>()?,
            ),
        },
    )
}

/// Relies on serde_json::to_vec: renders the document compactly on one line.
/// JSON escapes control characters inside strings, so the frame delimiter
/// byte cannot appear in the output.
#[verifier::external_body]
pub(crate) fn render_fields(fields: &Fields) -> (r: Vec<u8>)
    ensures
        r@ == rendered_fields(fields_view(*fields)),
        forall|i: int| 0 <= i < r@.len() ==> r@[i] != crate::DELIMITER,
{
    let obj = serde_json::Value::Object(
        fields.iter().map(|e| (e.0.clone(), export_value(&e.1))).collect(),
    );
    serde_json::to_vec(&obj).unwrap_or_default()
}

/// Relies on serde_json::Value: maps one library value onto a document node,
/// arm by arm.
#[verifier::external_body]
fn export_value(v: &JsonValue) -> serde_json::Value {
    match v {
        JsonValue::Null => serde_json::Value::Null,
        JsonValue::Bool(b) => serde_json::Value::Bool(*b),
        JsonValue::UInt(n) => serde_json::Value::Number(serde_json::Number::from(*n)),
        JsonValue::Str(s) => serde_json::Value::String(s.clone()),
        JsonValue::Arr(a) => serde_json::Value::Array(a.iter().map(export_value).collect()),
        JsonValue::Obj(m) => serde_json::Value::Object(
            m.iter().map(|e| (e.0.clone(), export_value(&e.1))).collect(),
        ),
    }
}

} // verus!
