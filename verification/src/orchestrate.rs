//! The per-key decisions of the tool: select the single fetched entry, decode
//! and patch the document, choose between previewing and writing back, and
//! turn a rejected conditional write into a conflict. The fetch and the write
//! themselves are outside the library; they hand plain values in and out.

use vstd::prelude::*;
use vstd::utf8::{valid_utf8, decode_utf8, encode_utf8};

use crate::bridge::{utf8_to_string, parse_json, json_of_text};
use crate::classify::Mode;
use crate::engine::{apply_patches, engine_result, patch_views, ApplyFailure};
use crate::errors::CoreError;
use crate::patch::NormalizedPatch;
use crate::text::{to_pretty_text, to_bytes, pretty_of, compact_of};
use crate::value::JVal;

verus! {

/// What a fetched value's bytes hold: the JSON document, if the bytes are
/// UTF-8 and the text parses.
pub open spec fn doc_of_bytes(bytes: Seq<u8>) -> Option<JVal> {
    if !valid_utf8(bytes) {
        Option::None
    } else {
        json_of_text(decode_utf8(bytes))
    }
}

/// What the caller must do with one key's result: show it, or write it back
/// under the key's version token.
#[derive(Debug, PartialEq, Eq)]
pub enum KeyAction {
    Print(String),
    Write(Vec<u8>),
}

/// Keep the single fetched entry for a key; zero or several entries are a
/// protocol violation and fail the lookup.
pub fn select_single(results: Vec<(Vec<u8>, u64)>) -> (r: Result<(Vec<u8>, u64), CoreError>)
    ensures
        results@.len() == 1 ==> r is Ok && r->Ok_0 == results@[0],
        results@.len() != 1 ==> (r matches Err(e) && e matches CoreError::KeyLookup(c) && c as int
            == results@.len()),
{
    let n = results.len();
    if n == 1 {
        let mut results = results;
        match results.pop() {
            Option::Some(kv) => Ok(kv),
            Option::None => Err(CoreError::KeyLookup(0)),
        }
    } else {
        Err(CoreError::KeyLookup(n))
    }
}

/// Decode one fetched value, apply the whole patch list, and either render the
/// result for display (dry run) or produce the bytes to write back.
pub fn process_key(
    value_bytes: &Vec<u8>,
    patches: &Vec<NormalizedPatch>,
    mode: Mode,
    dry_run: bool,
) -> (r: Result<KeyAction, CoreError>)
    ensures
        ({
            match doc_of_bytes(value_bytes@) {
                Option::None => r matches Err(e) && e matches CoreError::Decode(_),
                Option::Some(d0) => {
                    let out = engine_result(d0, patch_views(patches@), mode);
                    match out {
                        Err(f) => r matches Err(e) && (match f {
                            ApplyFailure::Shape => e is UnsupportedDocumentShape,
                            ApplyFailure::PatchFailed => e is PatchApply,
                        }),
                        Ok(d2) => r matches Ok(a) && (match a {
                            KeyAction::Print(s) => dry_run && s@ == pretty_of(d2),
                            KeyAction::Write(b) => !dry_run && b@ == encode_utf8(compact_of(d2)),
                        }),
                    }
                },
            }
        }),
{
    let text = match utf8_to_string(value_bytes) {
        Option::Some(t) => t,
        Option::None => {
            return Err(CoreError::Decode("invalid UTF-8".to_owned()));
        },
    };
    let doc = match parse_json(text.as_str()) {
        Ok(j) => j,
        Err(m) => {
            return Err(CoreError::Decode(m));
        },
    };
    let result = match apply_patches(doc, patches, mode) {
        Ok(j) => j,
        Err(e) => {
            return Err(e);
        },
    };
    if dry_run {
        Ok(KeyAction::Print(to_pretty_text(&result)))
    } else {
        Ok(KeyAction::Write(to_bytes(&result)))
    }
}

/// Turn the store's answer to a conditional write into the tool's outcome: a
/// rejected write is a conflict, and is never retried.
pub fn confirm_write(accepted: bool) -> (r: Result<(), CoreError>)
    ensures
        accepted ==> r is Ok,
        !accepted ==> (r matches Err(e) && e is Conflict),
{
    if accepted {
        Ok(())
    } else {
        Err(CoreError::Conflict)
    }
}

} // verus!
