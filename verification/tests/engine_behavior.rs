use kvpatch::classify::Mode;
use kvpatch::engine::{apply_patches, merge_value};
use kvpatch::errors::CoreError;
use kvpatch::patch::NormalizedPatch;
use kvpatch::value::Json;

fn s(x: &str) -> String {
    x.to_string()
}

fn num(x: &str) -> Json {
    Json::Num(s(x))
}

fn txt(x: &str) -> Json {
    Json::Str(s(x))
}

fn obj(fields: Vec<(&str, Json)>) -> Json {
    Json::Obj(fields.into_iter().map(|(k, v)| (s(k), v)).collect())
}

fn assign(field: &str, value: Json) -> NormalizedPatch {
    NormalizedPatch { target: Some(s(field)), value }
}

fn whole(value: Json) -> NormalizedPatch {
    NormalizedPatch { target: None, value }
}

fn op(kind: &str, path: &str) -> Json {
    obj(vec![("op", txt(kind)), ("path", txt(path))])
}

fn op_with_value(kind: &str, path: &str, value: Json) -> Json {
    obj(vec![("op", txt(kind)), ("path", txt(path)), ("value", value)])
}

#[test]
fn direct_assign_overwrites_in_every_mode() {
    for mode in [Mode::DirectAssign, Mode::JsonMergePatch, Mode::JsonPatch] {
        let doc = obj(vec![("a", obj(vec![("nested", num("1"))]))]);
        let patches = vec![assign("a", num("5"))];
        let r = apply_patches(doc, &patches, mode).unwrap();
        assert_eq!(r, obj(vec![("a", num("5"))]));
    }
}

#[test]
fn later_patch_wins_for_overlapping_fields() {
    let doc = obj(vec![]);
    let patches = vec![assign("a", num("1")), assign("a", num("2"))];
    let r = apply_patches(doc, &patches, Mode::DirectAssign).unwrap();
    assert_eq!(r, obj(vec![("a", num("2"))]));
}

#[test]
fn merge_null_field_deletes() {
    let doc = obj(vec![("a", num("1")), ("b", num("2"))]);
    let patches = vec![whole(obj(vec![("b", Json::Null)]))];
    let r = apply_patches(doc, &patches, Mode::JsonMergePatch).unwrap();
    assert_eq!(r, obj(vec![("a", num("1"))]));
}

#[test]
fn default_mode_merges_whole_document_patches() {
    let doc = obj(vec![("a", num("1")), ("b", num("2"))]);
    let patches = vec![whole(obj(vec![("b", Json::Null), ("c", num("3"))]))];
    let r = apply_patches(doc, &patches, Mode::DirectAssign).unwrap();
    assert_eq!(r, obj(vec![("a", num("1")), ("c", num("3"))]));
}

#[test]
fn merge_recurses_and_strips_nulls() {
    let doc = obj(vec![
        ("title", txt("Goodbye!")),
        ("author", obj(vec![("givenName", txt("John")), ("familyName", txt("Doe"))])),
        ("tags", Json::Arr(vec![txt("example"), txt("sample")])),
        ("content", txt("unchanged")),
    ]);
    let patch = obj(vec![
        ("title", txt("Hello!")),
        ("phoneNumber", txt("+01-123-456-7890")),
        ("author", obj(vec![("familyName", Json::Null)])),
        ("tags", Json::Arr(vec![txt("example")])),
    ]);
    let r = merge_value(doc, &patch);
    assert_eq!(
        r,
        obj(vec![
            ("title", txt("Hello!")),
            ("author", obj(vec![("givenName", txt("John"))])),
            ("tags", Json::Arr(vec![txt("example")])),
            ("content", txt("unchanged")),
            ("phoneNumber", txt("+01-123-456-7890")),
        ])
    );
}

#[test]
fn merge_with_non_object_replaces_wholesale() {
    let doc = obj(vec![("a", num("1"))]);
    let patches = vec![whole(num("5"))];
    let r = apply_patches(doc, &patches, Mode::DirectAssign).unwrap();
    assert_eq!(r, num("5"));
}

#[test]
fn direct_assign_after_wholesale_replacement_fails_on_shape() {
    let doc = obj(vec![("a", num("1"))]);
    let patches = vec![whole(num("5")), assign("b", num("2"))];
    let r = apply_patches(doc, &patches, Mode::DirectAssign);
    assert_eq!(r.err(), Some(CoreError::UnsupportedDocumentShape));
}

#[test]
fn non_object_document_is_rejected() {
    let doc = Json::Arr(vec![num("1"), num("2")]);
    let patches = vec![assign("a", num("1"))];
    let r = apply_patches(doc, &patches, Mode::DirectAssign);
    assert_eq!(r.err(), Some(CoreError::UnsupportedDocumentShape));
}

#[test]
fn json_patch_unresolved_path_fails_apply() {
    let doc = obj(vec![("a", num("1"))]);
    let patches = vec![whole(Json::Arr(vec![op("remove", "/missing")]))];
    let r = apply_patches(doc, &patches, Mode::JsonPatch);
    assert_eq!(r.err(), Some(CoreError::PatchApply));
}

#[test]
fn json_patch_runs_operations_in_order() {
    let doc = obj(vec![("a", num("1"))]);
    let ops = Json::Arr(vec![
        op_with_value("test", "/a", num("1")),
        op_with_value("add", "/b", num("2")),
        op("remove", "/a"),
    ]);
    let patches = vec![whole(ops)];
    let r = apply_patches(doc, &patches, Mode::JsonPatch).unwrap();
    assert_eq!(r, obj(vec![("b", num("2"))]));
}

#[test]
fn json_patch_ill_formed_operation_list_fails_apply() {
    let doc = obj(vec![("a", num("1"))]);
    let patches = vec![whole(num("7"))];
    let r = apply_patches(doc, &patches, Mode::JsonPatch);
    assert_eq!(r.err(), Some(CoreError::PatchApply));
}

#[test]
fn patches_reusable_across_documents() {
    let patches = vec![assign("a", num("9"))];
    let r1 = apply_patches(obj(vec![]), &patches, Mode::DirectAssign).unwrap();
    let r2 = apply_patches(obj(vec![("b", num("1"))]), &patches, Mode::DirectAssign).unwrap();
    assert_eq!(r1, obj(vec![("a", num("9"))]));
    assert_eq!(r2, obj(vec![("b", num("1")), ("a", num("9"))]));
}
