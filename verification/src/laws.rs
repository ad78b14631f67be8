//! Properties that relate several functions of the library, stated and proved
//! over the same spec functions the functions' own contracts use.

use vstd::prelude::*;

use crate::classify::{Mode, needs_stdin, references_stdin};
use crate::engine::{apply_one, applied, merged, merged_fields};
use crate::patch::parsed_patch;
use crate::value::{
    JVal, obj_get, obj_set, obj_del, lemma_get_set_same, lemma_get_set_other, lemma_get_del_same,
    lemma_get_del_other,
};

verus! {

/// Every patch spec that references standard input resolves to the one
/// materialized stdin value: two such specs, however written, parse to the
/// same patch value, and that value is the stdin value itself.
pub proof fn lemma_stdin_shared(s1: Seq<char>, s2: Seq<char>, stdin: Option<JVal>)
    requires
        references_stdin(s1),
        references_stdin(s2),
        parsed_patch(s1, stdin) is Ok,
        parsed_patch(s2, stdin) is Ok,
    ensures
        stdin matches Option::Some(v) && parsed_patch(s1, stdin)->Ok_0.1 == v && parsed_patch(
            s2,
            stdin,
        )->Ok_0.1 == v,
{
}

/// A direct assignment overwrites the named field of an object document, in
/// every mode alike: the mode plays no part in the outcome, and the field
/// reads back as the assigned value while every other field is untouched.
pub proof fn lemma_direct_assign_overwrites(d: JVal, f: Seq<char>, v: JVal, mode: Mode)
    requires
        d is Obj,
    ensures
        apply_one(d, (Option::Some(f), v), mode) == apply_one(
            d,
            (Option::Some(f), v),
            Mode::DirectAssign,
        ),
        apply_one(d, (Option::Some(f), v), mode) matches Ok(d2) && d2 is Obj && obj_get(
            d2->Obj_0,
            f,
        ) == Option::Some(v),
        forall|f2: Seq<char>|
            f2 != f ==> obj_get(apply_one(d, (Option::Some(f), v), mode)->Ok_0->Obj_0, f2)
                == obj_get(d->Obj_0, f2),
{
    lemma_get_set_same(d->Obj_0, f, v);
    assert forall|f2: Seq<char>| f2 != f implies obj_get(
        apply_one(d, (Option::Some(f), v), mode)->Ok_0->Obj_0,
        f2,
    ) == obj_get(d->Obj_0, f2) by {
        lemma_get_set_other(d->Obj_0, f, v, f2);
    }
}

/// Patch order is respected: two direct assignments to the same field, applied
/// in sequence to an object document, leave the later value in the field.
pub proof fn lemma_assign_ordering(d: JVal, f: Seq<char>, v1: JVal, v2: JVal, mode: Mode)
    requires
        d is Obj,
    ensures
        ({
            let ps = seq![
                (Option::Some(f), v1),
                (Option::Some(f), v2),
            ];
            applied(d, ps, mode) matches Ok(d2) && d2 is Obj && obj_get(d2->Obj_0, f)
                == Option::Some(v2)
        }),
{
    let ps = seq![(Option::Some(f), v1), (Option::Some(f), v2)];
    let d1 = JVal::Obj(obj_set(d->Obj_0, f, v1));
    assert(ps.drop_first() =~= seq![(Option::Some(f), v2)]);
    assert(ps.drop_first().drop_first() =~= Seq::<(Option<Seq<char>>, JVal)>::empty());
    assert(applied(d, ps, mode) == applied(d1, ps.drop_first(), mode));
    let d2 = JVal::Obj(obj_set(d1->Obj_0, f, v2));
    assert(applied(d1, ps.drop_first(), mode) == applied(d2, ps.drop_first().drop_first(), mode));
    lemma_get_set_same(d1->Obj_0, f, v2);
}

/// A merge patch with a `null` field deletes exactly that field of an object
/// document: afterwards the field is missing and every other field reads as
/// before.
pub proof fn lemma_merge_null_deletes(df: Seq<(Seq<char>, JVal)>, k: Seq<char>, k2: Seq<char>)
    ensures
        merged(JVal::Obj(df), JVal::Obj(seq![(k, JVal::Null)])) matches JVal::Obj(rf) && obj_get(
            rf,
            k,
        ) is None,
        k2 != k ==> obj_get(
            merged(JVal::Obj(df), JVal::Obj(seq![(k, JVal::Null)]))->Obj_0,
            k2,
        ) == obj_get(df, k2),
{
    let pf = seq![(k, JVal::Null)];
    assert(pf.drop_first() =~= Seq::<(Seq<char>, JVal)>::empty());
    assert(merged_fields(obj_del(df, k), pf.drop_first()) == obj_del(df, k));
    lemma_get_del_same(df, k);
    if k2 != k {
        lemma_get_del_other(df, k, k2);
    }
}

/// A patch spec that does not reference standard input parses the same way
/// whatever was, or was not, materialized there: stdin is consumed only when a
/// spec or its value segment is the stdin marker.
pub proof fn lemma_no_stdin_reference(s: Seq<char>, v1: Option<JVal>, v2: Option<JVal>)
    requires
        !references_stdin(s),
    ensures
        parsed_patch(s, v1) == parsed_patch(s, v2),
{
}

/// When the classifier reports that standard input is not needed, every patch
/// spec it kept parses without it.
pub proof fn lemma_stdin_unneeded(ss: Seq<Seq<char>>, i: int, v1: Option<JVal>, v2: Option<JVal>)
    requires
        !needs_stdin(ss),
        0 <= i < ss.len(),
    ensures
        parsed_patch(ss[i], v1) == parsed_patch(ss[i], v2),
{
    assert(!references_stdin(ss[i]));
    lemma_no_stdin_reference(ss[i], v1, v2);
}

} // verus!
