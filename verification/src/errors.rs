//! The error kinds the tool can surface. Every failure is terminal for the
//! invocation; nothing is retried.

use vstd::prelude::*;

verus! {

/// One error kind per way an invocation can fail.
#[derive(Debug, PartialEq, Eq)]
pub enum CoreError {
    /// Malformed or insufficient operands: no key, or no patch spec.
    Usage,
    /// A patch operand without `=` that is not the stdin marker, or one whose
    /// field name is empty; carries the offending operand.
    InvalidSpec(String),
    /// A patch operand whose value segment is not valid JSON; carries the
    /// offending operand and the parser's message.
    InvalidJson(String, String),
    /// A patch spec referenced standard input but no input was materialized.
    MissingInput,
    /// The captured standard input is not one valid JSON value; carries the
    /// raw captured text and the parser's message.
    InputParse(String, String),
    /// The document is not a JSON object where one is required.
    UnsupportedDocumentShape,
    /// A fetched value is not UTF-8 or not JSON; carries the parser's message.
    Decode(String),
    /// A key lookup returned zero or more than one entry; carries the count.
    KeyLookup(usize),
    /// An RFC 6902 operation list could not be applied.
    PatchApply,
    /// The version token was stale at write time.
    Conflict,
}

} // verus!
