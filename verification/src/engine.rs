//! The patch-application engine: JSON merge patch (RFC 7396) and direct field
//! assignment are implemented and verified here; JSON Patch operation lists
//! (RFC 6902) are delegated to an outside implementation through `bridge`.

use vstd::prelude::*;

use crate::bridge::{apply_rfc6902, rfc6902_of};
use crate::classify::Mode;
use crate::errors::CoreError;
use crate::patch::NormalizedPatch;
use crate::text::{compact_of, to_compact_text};
use crate::value::{
    Json, JVal, jpairs_of, lemma_jpairs_of, obj_get, obj_set, obj_del, or_null, get_field,
    set_field, del_field,
};

verus! {

/// RFC 7396 merge: the result of overlaying patch `p` onto document `d`.
///
/// A non-object patch replaces the document wholesale; an object patch merges
/// field by field into the document (or into an empty object if the document
/// is not an object), where a `null` patch field deletes the document field
/// and any other patch field is itself merged into the existing field.
pub open spec fn merged(d: JVal, p: JVal) -> JVal
    decreases p,
{
    match p {
        JVal::Obj(pf) => {
            let base = match d {
                JVal::Obj(df) => df,
                _ => Seq::empty(),
            };
            JVal::Obj(merged_fields(base, pf))
        },
        _ => p,
    }
}

/// Fold of `merged` over the fields of an object patch, left to right.
pub open spec fn merged_fields(
    b: Seq<(Seq<char>, JVal)>,
    pf: Seq<(Seq<char>, JVal)>,
) -> Seq<(Seq<char>, JVal)>
    decreases pf,
    via merged_fields_decreases
{
    if pf.len() == 0 {
        b
    } else {
        let k = pf[0].0;
        let v = pf[0].1;
        let b2 = if v is Null {
            obj_del(b, k)
        } else {
            obj_set(b, k, merged(or_null(obj_get(b, k)), v))
        };
        merged_fields(b2, pf.drop_first())
    }
}

#[via_fn]
proof fn merged_fields_decreases(b: Seq<(Seq<char>, JVal)>, pf: Seq<(Seq<char>, JVal)>) {
    if pf.len() > 0 {
        assert(decreases_to!(pf => pf[0]));
        assert(decreases_to!(pf[0] => pf[0].1));
    }
}

/// Apply an RFC 7396 merge patch: the result views as `merged`.
#[verifier::loop_isolation(false)]
pub fn merge_value(d: Json, p: &Json) -> (r: Json)
    ensures
        r@ == merged(d@, p@),
    decreases *p,
{
    match p {
        Json::Obj(pf) => {
            let mut b: Vec<(String, Json)> = match d {
                Json::Obj(df) => df,
                _ => Vec::new(),
            };
            let ghost base0 = jpairs_of(b@);
            let ghost pv_all = jpairs_of(pf@);
            proof {
                lemma_jpairs_of(pf@);
                assert(pv_all.skip(0) =~= pv_all);
            }
            let mut i: usize = 0;
            while i < pf.len()
                invariant
                    i <= pf@.len(),
                    merged_fields(jpairs_of(b@), pv_all.skip(i as int)) == merged_fields(
                        base0,
                        pv_all,
                    ),
                decreases pf@.len() - i,
            {
                proof {
                    lemma_jpairs_of(pf@);
                    assert(pv_all.skip(i as int)[0] == pv_all[i as int]);
                    assert(pv_all.skip(i as int).drop_first() =~= pv_all.skip(i + 1));
                }
                let key: &String = &pf[i].0;
                let entry: &Json = &pf[i].1;
                match entry {
                    Json::Null => {
                        del_field(&mut b, key.as_str());
                    },
                    _ => {
                        let cur: Json = match get_field(&b, key.as_str()) {
                            Option::Some(x) => x.dup(),
                            Option::None => Json::Null,
                        };
                        proof {
                            broadcast use vstd::std_specs::vec::group_vec_axioms;

                            assert(decreases_to!(*p => p->Obj_0));
                            assert(decreases_to!(p->Obj_0 => p->Obj_0@));
                            assert(p->Obj_0@ == pf@);
                            assert(decreases_to!(pf@ => pf@[i as int]));
                            assert(decreases_to!(pf@[i as int] => pf@[i as int].1));
                        }
                        let newv = merge_value(cur, entry);
                        set_field(&mut b, key.as_str(), newv);
                    },
                }
                i += 1;
            }
            proof {
                assert(pv_all.skip(i as int) =~= Seq::<(Seq<char>, JVal)>::empty());
            }
            Json::Obj(b)
        },
        _ => p.dup(),
    }
}

/// How the engine can fail on one patch.
pub enum ApplyFailure {
    /// The document is not an object where the patch requires one.
    Shape,
    /// The RFC 6902 operation list could not be applied.
    PatchFailed,
}

/// The views of a list of normalized patches.
pub open spec fn patch_views(ps: Seq<NormalizedPatch>) -> Seq<(Option<Seq<char>>, JVal)> {
    ps.map_values(|p: NormalizedPatch| p@)
}

/// The outcome of one patch on a document.
///
/// A present target always assigns the value to that field of the document
/// root, in every mode, and requires the root to be an object. A whole-document
/// patch is an RFC 6902 operation list in `JsonPatch` mode and an RFC 7396
/// merge patch in every other mode.
pub open spec fn apply_one(d: JVal, p: (Option<Seq<char>>, JVal), mode: Mode) -> Result<
    JVal,
    ApplyFailure,
> {
    match p.0 {
        Option::Some(f) => match d {
            JVal::Obj(df) => Ok(JVal::Obj(obj_set(df, f, p.1))),
            _ => Err(ApplyFailure::Shape),
        },
        Option::None => {
            if mode is JsonPatch {
                match rfc6902_of(compact_of(d), compact_of(p.1)) {
                    Option::Some(r) => Ok(r),
                    Option::None => Err(ApplyFailure::PatchFailed),
                }
            } else {
                Ok(merged(d, p.1))
            }
        },
    }
}

/// The outcome of a patch list, applied left to right; the first failing patch
/// fails the whole application.
pub open spec fn applied(d: JVal, ps: Seq<(Option<Seq<char>>, JVal)>, mode: Mode) -> Result<
    JVal,
    ApplyFailure,
>
    decreases ps.len(),
{
    if ps.len() == 0 {
        Ok(d)
    } else {
        match apply_one(d, ps[0], mode) {
            Ok(d2) => applied(d2, ps.drop_first(), mode),
            Err(e) => Err(e),
        }
    }
}

/// The engine's outcome: the document must be an object at entry, then the
/// patch list is applied in order.
pub open spec fn engine_result(d: JVal, ps: Seq<(Option<Seq<char>>, JVal)>, mode: Mode) -> Result<
    JVal,
    ApplyFailure,
> {
    if !(d is Obj) {
        Err(ApplyFailure::Shape)
    } else {
        applied(d, ps, mode)
    }
}

/// Apply the whole patch list to the document.
#[verifier::loop_isolation(false)]
pub fn apply_patches(doc: Json, patches: &Vec<NormalizedPatch>, mode: Mode) -> (r: Result<
    Json,
    CoreError,
>)
    ensures
        ({
            let out = engine_result(doc@, patch_views(patches@), mode);
            match r {
                Ok(j2) => out is Ok && j2@ == out->Ok_0,
                Err(e) => out is Err && (match out->Err_0 {
                    ApplyFailure::Shape => e is UnsupportedDocumentShape,
                    ApplyFailure::PatchFailed => e is PatchApply,
                }),
            }
        }),
{
    let ghost d0 = doc@;
    let ghost pv = patch_views(patches@);
    let is_obj = match &doc {
        Json::Obj(_) => true,
        _ => false,
    };
    if !is_obj {
        return Err(CoreError::UnsupportedDocumentShape);
    }
    let mut cur = doc;
    let mut i: usize = 0;
    proof {
        assert(pv.skip(0) =~= pv);
    }
    while i < patches.len()
        invariant
            i <= patches@.len(),
            pv == patch_views(patches@),
            pv.len() == patches@.len(),
            applied(cur@, pv.skip(i as int), mode) == applied(d0, pv, mode),
        decreases patches@.len() - i,
    {
        proof {
            assert(pv.skip(i as int)[0] == pv[i as int]);
            assert(pv.skip(i as int).drop_first() =~= pv.skip(i + 1));
            assert(pv[i as int] == patches@[i as int]@);
        }
        let p: &NormalizedPatch = &patches[i];
        match &p.target {
            Option::Some(f) => {
                match cur {
                    Json::Obj(mut df) => {
                        set_field(&mut df, f.as_str(), p.value.dup());
                        cur = Json::Obj(df);
                    },
                    _ => {
                        return Err(CoreError::UnsupportedDocumentShape);
                    },
                }
            },
            Option::None => {
                match mode {
                    Mode::JsonPatch => {
                        let dtxt = to_compact_text(&cur);
                        let otxt = to_compact_text(&p.value);
                        match apply_rfc6902(dtxt.as_str(), otxt.as_str()) {
                            Option::Some(r2) => {
                                cur = r2;
                            },
                            Option::None => {
                                return Err(CoreError::PatchApply);
                            },
                        }
                    },
                    _ => {
                        cur = merge_value(cur, &p.value);
                    },
                }
            },
        }
        i += 1;
    }
    proof {
        assert(pv.skip(i as int) =~= Seq::<(Option<Seq<char>>, JVal)>::empty());
    }
    Ok(cur)
}

} // verus!
