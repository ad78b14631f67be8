use kvpatch::classify::Mode;
use kvpatch::errors::CoreError;
use kvpatch::orchestrate::{confirm_write, process_key, select_single, KeyAction};
use kvpatch::patch::NormalizedPatch;
use kvpatch::text::{to_compact_text, to_pretty_text};
use kvpatch::value::Json;

fn s(x: &str) -> String {
    x.to_string()
}

fn num(x: &str) -> Json {
    Json::Num(s(x))
}

fn txt(x: &str) -> Json {
    Json::Str(s(x))
}

fn obj(fields: Vec<(&str, Json)>) -> Json {
    Json::Obj(fields.into_iter().map(|(k, v)| (s(k), v)).collect())
}

fn assign(field: &str, value: Json) -> NormalizedPatch {
    NormalizedPatch { target: Some(s(field)), value }
}

#[test]
fn select_single_accepts_exactly_one_entry() {
    let r = select_single(vec![(b"{}".to_vec(), 7)]).unwrap();
    assert_eq!(r, (b"{}".to_vec(), 7));
}

#[test]
fn select_single_rejects_zero_and_many() {
    assert_eq!(select_single(vec![]).err(), Some(CoreError::KeyLookup(0)));
    let two = vec![(b"{}".to_vec(), 1), (b"{}".to_vec(), 2)];
    assert_eq!(select_single(two).err(), Some(CoreError::KeyLookup(2)));
}

#[test]
fn dry_run_prints_and_never_writes() {
    let bytes = b"{\"a\":1}".to_vec();
    let patches = vec![assign("a", num("2"))];
    let r = process_key(&bytes, &patches, Mode::DirectAssign, true).unwrap();
    match r {
        KeyAction::Print(text) => assert_eq!(text, s("{\n  \"a\": 2\n}")),
        KeyAction::Write(_) => panic!("dry run must not reach the write path"),
    }
}

#[test]
fn normal_run_produces_write_bytes() {
    let bytes = b"{\"a\":1}".to_vec();
    let patches = vec![assign("a", num("2"))];
    let r = process_key(&bytes, &patches, Mode::DirectAssign, false).unwrap();
    assert_eq!(r, KeyAction::Write(b"{\"a\":2}".to_vec()));
}

#[test]
fn decode_error_on_invalid_utf8() {
    let bytes = vec![0xff, 0xfe, 0x01];
    let patches = vec![assign("a", num("2"))];
    match process_key(&bytes, &patches, Mode::DirectAssign, false) {
        Err(CoreError::Decode(_)) => {}
        other => panic!("expected Decode, got {:?}", other),
    }
}

#[test]
fn decode_error_on_invalid_json() {
    let bytes = b"{not json".to_vec();
    let patches = vec![assign("a", num("2"))];
    match process_key(&bytes, &patches, Mode::DirectAssign, false) {
        Err(CoreError::Decode(msg)) => assert!(!msg.is_empty()),
        other => panic!("expected Decode, got {:?}", other),
    }
}

#[test]
fn non_object_top_level_is_rejected() {
    let bytes = b"[1,2]".to_vec();
    let patches = vec![assign("a", num("2"))];
    let r = process_key(&bytes, &patches, Mode::DirectAssign, false);
    assert_eq!(r.err(), Some(CoreError::UnsupportedDocumentShape));
}

#[test]
fn failed_json_patch_leaves_nothing_to_write() {
    let bytes = b"{\"a\":1}".to_vec();
    let ops = Json::Arr(vec![obj(vec![("op", txt("remove")), ("path", txt("/missing"))])]);
    let patches = vec![NormalizedPatch { target: None, value: ops }];
    let r = process_key(&bytes, &patches, Mode::JsonPatch, false);
    assert_eq!(r.err(), Some(CoreError::PatchApply));
}

#[test]
fn stale_token_write_is_a_conflict_and_not_retried() {
    assert!(confirm_write(true).is_ok());
    assert_eq!(confirm_write(false).err(), Some(CoreError::Conflict));
}

#[test]
fn rendering_escapes_string_content() {
    let doc = obj(vec![("s", txt("a\"b\nc\\d\u{0001}"))]);
    assert_eq!(to_compact_text(&doc), s("{\"s\":\"a\\\"b\\nc\\\\d\\u0001\"}"));
}

#[test]
fn rendering_keeps_number_text_and_unicode() {
    let doc = obj(vec![("n", num("1.5")), ("u", txt("héllo"))]);
    assert_eq!(to_compact_text(&doc), s("{\"n\":1.5,\"u\":\"héllo\"}"));
}

#[test]
fn pretty_rendering_indents_nested_values() {
    let doc = obj(vec![
        ("a", num("1")),
        ("b", Json::Arr(vec![num("2"), num("3")])),
        ("c", obj(vec![])),
    ]);
    let expected = s("{\n  \"a\": 1,\n  \"b\": [\n    2,\n    3\n  ],\n  \"c\": {}\n}");
    assert_eq!(to_pretty_text(&doc), expected);
}

#[test]
fn round_trip_through_bytes_preserves_document() {
    let bytes = "{\"k\":[true,null,\"x\"],\"m\":{\"n\":-2e3}}".as_bytes().to_vec();
    let patches: Vec<NormalizedPatch> = vec![];
    // An empty patch list is rejected upstream by the classifier; the engine
    // itself applies it as the identity, which makes the round trip visible.
    let r = process_key(&bytes, &patches, Mode::DirectAssign, false).unwrap();
    match r {
        KeyAction::Write(out) => {
            assert_eq!(String::from_utf8(out).unwrap(), s("{\"k\":[true,null,\"x\"],\"m\":{\"n\":-2000.0}}"));
        }
        KeyAction::Print(_) => panic!("expected the write path"),
    }
}
