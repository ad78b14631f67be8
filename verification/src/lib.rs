//! Verified core of a command-line tool that applies partial updates to JSON
//! documents held in a key-value configuration store, guarded by optimistic
//! concurrency control.
//!
//! The library covers the operand classifier, the patch-operand parser, the
//! patch-application engine (direct field assignment and JSON merge patch are
//! implemented and verified here; JSON Patch operation lists are delegated to
//! the `json-patch` crate behind a trusted wrapper), and the per-key
//! orchestration decisions. All input and output — reading the command line
//! and standard input, talking to the store — lives outside the library and
//! hands it plain values.

pub mod value;
pub mod text;
pub mod bridge;
pub mod classify;
pub mod patch;
pub mod engine;
pub mod orchestrate;
pub mod errors;
pub mod laws;
