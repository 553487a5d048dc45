//! Reading the JSON that the platform's shell tools print. What a document
//! holds is named over the bytes it was read from, and a place in it is a
//! JSON pointer (`""` for the whole document, `/Name`, `/3/Name`).

use vstd::prelude::*;
use crate::store::opt_seq;

verus! {

#[verifier::external_type_specification]
#[verifier::external_body]
pub struct ExJsonValue(serde_json::Value);

#[verifier::external_type_specification]
#[verifier::external_body]
pub struct ExJsonError(serde_json::Error);

/// Whether the bytes are one well-formed JSON document, as
/// `serde_json::from_slice` reads it.
pub uninterp spec fn json_parses(doc: Seq<u8>) -> bool;

/// The text of the JSON string at `pointer` in the document `doc`; none
/// where nothing is there or it is not a string.
pub uninterp spec fn json_text_at(doc: Seq<u8>, pointer: Seq<char>) -> Option<Seq<char>>;

/// The length of the JSON array at `pointer` in the document `doc`; none
/// where nothing is there or it is not an array.
pub uninterp spec fn json_array_len_at(doc: Seq<u8>, pointer: Seq<char>) -> Option<nat>;

/// Whether a JSON object stands at `pointer` in the document `doc`.
pub uninterp spec fn json_object_at(doc: Seq<u8>, pointer: Seq<char>) -> bool;

/// A parsed JSON document with the bytes it was read from. Only
/// `parse_doc` builds one, so the value is always the parse of the bytes.
pub struct JsonDoc {
    source: Vec<u8>,
    value: serde_json::Value,
}

impl JsonDoc {
    /// The bytes the document was read from.
    pub closed spec fn source(&self) -> Seq<u8> {
        self.source@
    }
}

/// Relies on `serde_json::from_slice`: it parses the bytes as one JSON
/// document, and fails exactly when they are not one.
#[verifier::external_body]
pub(crate) fn parse_doc(bytes: &[u8]) -> (r: Result<JsonDoc, serde_json::Error>)
    ensures
        r is Ok <==> json_parses(bytes@),
        r is Ok ==> r->Ok_0.source() == bytes@,
{
    match serde_json::from_slice(bytes) {
        Ok(value) => Ok(JsonDoc { source: bytes.to_vec(), value }),
        Err(e) => Err(e),
    }
}

/// Relies on the `Display` of `serde_json::Error`: the error's description.
#[verifier::external_body]
pub(crate) fn json_error_text(e: &serde_json::Error) -> (r: String) {
    e.to_string()
}

/// Relies on `serde_json::Value::pointer` and `Value::as_str`: the text of
/// the string at the pointer.
#[verifier::external_body]
pub(crate) fn text_at(doc: &JsonDoc, pointer: &str) -> (r: Option<String>)
    ensures
        opt_seq(r) == json_text_at(doc.source(), pointer@),
{
    doc.value.pointer(pointer).and_then(|v| v.as_str()).map(|s| s.to_string())
}

/// Relies on `serde_json::Value::pointer` and `Value::as_array`: the length
/// of the array at the pointer.
#[verifier::external_body]
pub(crate) fn array_len_at(doc: &JsonDoc, pointer: &str) -> (r: Option<usize>)
    ensures
        match r {
            Some(n) => json_array_len_at(doc.source(), pointer@) == Some(n as nat),
            None => json_array_len_at(doc.source(), pointer@) is None,
        },
{
    doc.value.pointer(pointer).and_then(|v| v.as_array()).map(|a| a.len())
}

/// Relies on `serde_json::Value::pointer` and `Value::is_object`: whether
/// an object stands at the pointer.
#[verifier::external_body]
pub(crate) fn object_at(doc: &JsonDoc, pointer: &str) -> (r: bool)
    ensures
        r == json_object_at(doc.source(), pointer@),
{
    doc.value.pointer(pointer).is_some_and(|v| v.is_object())
}

} // verus!
