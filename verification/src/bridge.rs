//! Trusted boundary to the outside crates: JSON parsing (serde_json), RFC 6902
//! patch application (json-patch), and two small std helpers. Every item here
//! carries the contract the rest of the library is verified against.

use vstd::prelude::*;

use crate::value::{Json, JVal};

verus! {

#[verifier::external_type_specification]
#[verifier::external_body]
pub struct ExSerdeValue(serde_json::Value);

/// What serde_json's parser returns on a given text: nothing where the text is
/// not one well-formed JSON value, otherwise the parsed value.
pub uninterp spec fn json_of_text(s: Seq<char>) -> Option<JVal>;

/// What the RFC 6902 pipeline yields for a document text and an operation-list
/// text: nothing where either text fails to parse as JSON, the operation list
/// is not a well-formed patch, or one of its operations fails to apply;
/// otherwise the patched document.
pub uninterp spec fn rfc6902_of(doc_text: Seq<char>, ops_text: Seq<char>) -> Option<JVal>;

/// Relies on serde_json::Value's variants: mirrors them into the library's
/// value type one for one, keeping a number's literal text.
#[verifier::external_body]
fn from_serde(v: serde_json::Value) -> Json {
    match v {
        serde_json::Value::Null => Json::Null,
        serde_json::Value::Bool(b) => Json::Bool(b),
        serde_json::Value::Number(n) => Json::Num(n.to_string()),
        serde_json::Value::String(s) => Json::Str(s),
        serde_json::Value::Array(a) => Json::Arr(a.into_iter().map(from_serde).collect()),
        serde_json::Value::Object(m) => Json::Obj(
            m.into_iter().map(|p| (p.0, from_serde(p.1))).collect(),
        ),
    }
}

/// Relies on serde_json::from_str: parses the whole text as one JSON value;
/// the text of the error is serde_json's own message.
#[verifier::external_body]
pub(crate) fn parse_json(text: &str) -> (r: Result<Json, String>)
    ensures
        (r is Ok) == (json_of_text(text@) is Some),
        r is Ok ==> Option::Some(r->Ok_0@) == json_of_text(text@),
{
    match serde_json::from_str::<serde_json::Value>(text) {
        Ok(v) => Ok(from_serde(v)),
        Err(e) => Err(e.to_string()),
    }
}

/// Relies on json_patch::patch (RFC 6902), with serde_json::from_str reading
/// the document and the operation list and serde_json::from_value shaping the
/// list into a patch: applies the operations in order, and fails as a whole if
/// any operation fails.
#[verifier::external_body]
pub(crate) fn apply_rfc6902(doc_text: &str, ops_text: &str) -> (r: Option<Json>)
    ensures
        (r is Some) == (rfc6902_of(doc_text@, ops_text@) is Some),
        r is Some ==> Option::Some(r->Some_0@) == rfc6902_of(doc_text@, ops_text@),
{
    let mut doc: serde_json::Value = serde_json::from_str(doc_text).ok()?;
    let ops: serde_json::Value = serde_json::from_str(ops_text).ok()?;
    let p: json_patch::Patch = serde_json::from_value(ops).ok()?;
    json_patch::patch(&mut doc, &p).ok()?;
    Some(from_serde(doc))
}

/// Relies on std's str::from_utf8: succeeds exactly on valid UTF-8 input and
/// yields its decoding.
#[verifier::external_body]
pub(crate) fn utf8_to_string(bytes: &Vec<u8>) -> (r: Option<String>)
    ensures
        (r is Some) == vstd::utf8::valid_utf8(bytes@),
        r is Some ==> r->Some_0@ == vstd::utf8::decode_utf8(bytes@),
{
    match std::str::from_utf8(bytes.as_slice()) {
        Ok(s) => Some(s.to_string()),
        Err(_) => None,
    }
}

/// Relies on std's String::push: appends one character.
#[verifier::external_body]
pub(crate) fn push_char(s: &mut String, c: char)
    ensures
        final(s)@ == old(s)@.push(c),
{
    s.push(c);
}

} // verus!
