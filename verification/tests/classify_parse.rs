use kvpatch::classify::{classify, Mode};
use kvpatch::errors::CoreError;
use kvpatch::patch::{materialize_stdin, parse_patch, parse_specs};
use kvpatch::value::Json;

fn s(x: &str) -> String {
    x.to_string()
}

fn strs(xs: &[&str]) -> Vec<String> {
    xs.iter().map(|x| x.to_string()).collect()
}

fn num(x: &str) -> Json {
    Json::Num(s(x))
}

fn obj(fields: Vec<(&str, Json)>) -> Json {
    Json::Obj(fields.into_iter().map(|(k, v)| (s(k), v)).collect())
}

#[test]
fn usage_error_without_keys() {
    let r = classify(&strs(&["a=1"]));
    assert_eq!(r.err(), Some(CoreError::Usage));
}

#[test]
fn usage_error_without_patch_specs() {
    let r = classify(&strs(&["mykey"]));
    assert_eq!(r.err(), Some(CoreError::Usage));
    let r = classify(&strs(&[]));
    assert_eq!(r.err(), Some(CoreError::Usage));
}

#[test]
fn classify_partitions_operands() {
    let r = classify(&strs(&["--dry-run", "k1", "a=1", "--", "k2", "--json-patch"])).unwrap();
    assert!(r.dry_run);
    assert_eq!(r.mode, Mode::JsonPatch);
    assert_eq!(r.keys, strs(&["k1", "k2"]));
    assert_eq!(r.specs, strs(&["a=1", "--"]));
    assert!(r.needs_stdin);
}

#[test]
fn classify_defaults_without_flags() {
    let r = classify(&strs(&["k", "a=1"])).unwrap();
    assert!(!r.dry_run);
    assert_eq!(r.mode, Mode::DirectAssign);
    assert!(!r.needs_stdin);
}

#[test]
fn classify_sees_stdin_value_segment() {
    let r = classify(&strs(&["k", "a=--"])).unwrap();
    assert!(r.needs_stdin);
}

#[test]
fn invalid_spec_identifies_operand() {
    let r = parse_patch(&s("abc"), &None);
    assert_eq!(r.err(), Some(CoreError::InvalidSpec(s("abc"))));
}

#[test]
fn invalid_spec_on_empty_field_name() {
    let r = parse_patch(&s("=5"), &None);
    assert_eq!(r.err(), Some(CoreError::InvalidSpec(s("=5"))));
}

#[test]
fn invalid_json_identifies_operand() {
    let r = parse_patch(&s("a=notjson"), &None);
    match r {
        Err(CoreError::InvalidJson(spec, msg)) => {
            assert_eq!(spec, s("a=notjson"));
            assert!(!msg.is_empty());
        }
        other => panic!("expected InvalidJson, got {:?}", other),
    }
}

#[test]
fn missing_input_when_stdin_not_materialized() {
    assert_eq!(parse_patch(&s("--"), &None).err(), Some(CoreError::MissingInput));
    assert_eq!(parse_patch(&s("a=--"), &None).err(), Some(CoreError::MissingInput));
}

#[test]
fn parse_resolves_field_and_value() {
    let p = parse_patch(&s("a=5"), &None).unwrap();
    assert_eq!(p.target, Some(s("a")));
    assert_eq!(p.value, num("5"));
}

#[test]
fn parse_splits_on_first_equals_only() {
    let p = parse_patch(&s("a=\"b=c\""), &None).unwrap();
    assert_eq!(p.target, Some(s("a")));
    assert_eq!(p.value, Json::Str(s("b=c")));
}

#[test]
fn parse_keeps_structured_values() {
    let p = parse_patch(&s("a=[1,2]"), &None).unwrap();
    assert_eq!(p.value, Json::Arr(vec![num("1"), num("2")]));
}

#[test]
fn parse_keeps_number_text() {
    let p = parse_patch(&s("a=1.5"), &None).unwrap();
    assert_eq!(p.value, num("1.5"));
}

#[test]
fn stdin_marker_gives_whole_document_patch() {
    let v = obj(vec![("x", num("1"))]);
    let p = parse_patch(&s("--"), &Some(v)).unwrap();
    assert_eq!(p.target, None);
    assert_eq!(p.value, obj(vec![("x", num("1"))]));
}

#[test]
fn stdin_value_shared_across_specs() {
    let v = obj(vec![("x", num("1"))]);
    let ps = parse_specs(&strs(&["a=--", "b=--"]), &Some(v)).unwrap();
    assert_eq!(ps.len(), 2);
    assert_eq!(ps[0].target, Some(s("a")));
    assert_eq!(ps[1].target, Some(s("b")));
    assert_eq!(ps[0].value, obj(vec![("x", num("1"))]));
    assert_eq!(ps[0].value, ps[1].value);
}

#[test]
fn parse_specs_stops_at_first_failure() {
    let r = parse_specs(&strs(&["a=1", "bad", "b=2"]), &None);
    assert_eq!(r.err(), Some(CoreError::InvalidSpec(s("bad"))));
}

#[test]
fn materialize_stdin_parses_whole_text() {
    let v = materialize_stdin(&s("{\"x\": 1}\n")).unwrap();
    assert_eq!(v, obj(vec![("x", num("1"))]));
}

#[test]
fn materialize_stdin_reports_raw_text() {
    match materialize_stdin(&s("{oops")) {
        Err(CoreError::InputParse(raw, msg)) => {
            assert_eq!(raw, s("{oops"));
            assert!(!msg.is_empty());
        }
        other => panic!("expected InputParse, got {:?}", other),
    }
}
