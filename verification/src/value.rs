//! The JSON document model: an executable value type, its mathematical view,
//! and the object-field operations the patch engine is built from.

use vstd::prelude::*;

verus! {

/// Mathematical model of a JSON value.
///
/// An object is a sequence of key/value pairs in insertion order; a number is
/// kept as the sequence of characters of its literal text.
pub enum JVal {
    Null,
    Bool(bool),
    Num(Seq<char>),
    Str(Seq<char>),
    Arr(Seq<JVal>),
    Obj(Seq<(Seq<char>, JVal)>),
}

/// Executable JSON value.
///
/// A number keeps the literal text it was parsed from, so nothing is lost
/// between parsing and printing; object fields keep their insertion order.
#[derive(Debug, PartialEq, Eq)]
pub enum Json {
    Null,
    Bool(bool),
    Num(String),
    Str(String),
    Arr(Vec<Json>),
    Obj(Vec<(String, Json)>),
}

/// The view of an executable JSON value.
pub open spec fn jval_of(j: Json) -> JVal
    decreases j,
    via jval_of_decreases
{
    match j {
        Json::Null => JVal::Null,
        Json::Bool(b) => JVal::Bool(b),
        Json::Num(s) => JVal::Num(s@),
        Json::Str(s) => JVal::Str(s@),
        Json::Arr(v) => JVal::Arr(jvals_of(v@)),
        Json::Obj(v) => JVal::Obj(jpairs_of(v@)),
    }
}

/// The views of a sequence of executable JSON values, element by element.
pub open spec fn jvals_of(s: Seq<Json>) -> Seq<JVal>
    decreases s,
{
    if s.len() == 0 {
        Seq::empty()
    } else {
        seq![jval_of(s[0])] + jvals_of(s.drop_first())
    }
}

/// The views of a sequence of executable object fields, pair by pair.
pub open spec fn jpairs_of(s: Seq<(String, Json)>) -> Seq<(Seq<char>, JVal)>
    decreases s,
    via jpairs_of_decreases
{
    if s.len() == 0 {
        Seq::empty()
    } else {
        seq![(s[0].0@, jval_of(s[0].1))] + jpairs_of(s.drop_first())
    }
}

#[via_fn]
proof fn jval_of_decreases(j: Json) {
    broadcast use vstd::std_specs::vec::group_vec_axioms;

    match j {
        Json::Arr(v) => {
            assert(decreases_to!(j => v));
            assert(decreases_to!(v => v@));
        },
        Json::Obj(v) => {
            assert(decreases_to!(j => v));
            assert(decreases_to!(v => v@));
        },
        _ => {},
    }
}

#[via_fn]
proof fn jpairs_of_decreases(s: Seq<(String, Json)>) {
    if s.len() > 0 {
        assert(decreases_to!(s => s[0]));
        assert(decreases_to!(s[0] => s[0].1));
    }
}

impl View for Json {
    type V = JVal;

    open spec fn view(&self) -> JVal {
        jval_of(*self)
    }
}

/// Element-by-element characterization of `jvals_of`.
pub proof fn lemma_jvals_of(s: Seq<Json>)
    ensures
        jvals_of(s).len() == s.len(),
        forall|i: int| 0 <= i < s.len() ==> jvals_of(s)[i] == jval_of(s[i]),
    decreases s.len(),
{
    if s.len() > 0 {
        lemma_jvals_of(s.drop_first());
    }
}

/// Element-by-element characterization of `jpairs_of`.
pub proof fn lemma_jpairs_of(s: Seq<(String, Json)>)
    ensures
        jpairs_of(s).len() == s.len(),
        forall|i: int| 0 <= i < s.len() ==> jpairs_of(s)[i] == (s[i].0@, s[i].1@),
    decreases s.len(),
{
    if s.len() > 0 {
        lemma_jpairs_of(s.drop_first());
    }
}

/// The value of the first field named `k`, if any.
pub open spec fn obj_get(o: Seq<(Seq<char>, JVal)>, k: Seq<char>) -> Option<JVal>
    decreases o.len(),
{
    if o.len() == 0 {
        Option::None
    } else if o[0].0 == k {
        Option::Some(o[0].1)
    } else {
        obj_get(o.drop_first(), k)
    }
}

/// Assign `v` to the field named `k`: the first field so named is replaced in
/// place, and a missing field is appended at the end.
pub open spec fn obj_set(o: Seq<(Seq<char>, JVal)>, k: Seq<char>, v: JVal) -> Seq<
    (Seq<char>, JVal),
>
    decreases o.len(),
{
    if o.len() == 0 {
        seq![(k, v)]
    } else if o[0].0 == k {
        seq![(k, v)] + o.drop_first()
    } else {
        seq![o[0]] + obj_set(o.drop_first(), k, v)
    }
}

/// Remove every field named `k`.
pub open spec fn obj_del(o: Seq<(Seq<char>, JVal)>, k: Seq<char>) -> Seq<(Seq<char>, JVal)>
    decreases o.len(),
{
    if o.len() == 0 {
        Seq::empty()
    } else if o[0].0 == k {
        obj_del(o.drop_first(), k)
    } else {
        seq![o[0]] + obj_del(o.drop_first(), k)
    }
}

/// A missing field reads as `null`.
pub open spec fn or_null(v: Option<JVal>) -> JVal {
    match v {
        Option::Some(x) => x,
        Option::None => JVal::Null,
    }
}

/// After an assignment the field reads back as the assigned value.
pub proof fn lemma_get_set_same(o: Seq<(Seq<char>, JVal)>, k: Seq<char>, v: JVal)
    ensures
        obj_get(obj_set(o, k, v), k) == Option::Some(v),
    decreases o.len(),
{
    if o.len() > 0 && o[0].0 != k {
        lemma_get_set_same(o.drop_first(), k, v);
        assert((seq![o[0]] + obj_set(o.drop_first(), k, v)).drop_first() =~= obj_set(
            o.drop_first(),
            k,
            v,
        ));
    }
}

/// An assignment leaves every other field unchanged.
pub proof fn lemma_get_set_other(o: Seq<(Seq<char>, JVal)>, k: Seq<char>, v: JVal, k2: Seq<char>)
    requires
        k2 != k,
    ensures
        obj_get(obj_set(o, k, v), k2) == obj_get(o, k2),
    decreases o.len(),
{
    if o.len() == 0 {
        assert(seq![(k, v)].drop_first() =~= Seq::<(Seq<char>, JVal)>::empty());
        assert(obj_get(Seq::<(Seq<char>, JVal)>::empty(), k2) is None);
    } else {
        if o[0].0 == k {
            assert((seq![(k, v)] + o.drop_first()).drop_first() =~= o.drop_first());
        } else {
            lemma_get_set_other(o.drop_first(), k, v, k2);
            assert((seq![o[0]] + obj_set(o.drop_first(), k, v)).drop_first() =~= obj_set(
                o.drop_first(),
                k,
                v,
            ));
        }
    }
}

/// After a removal the field reads as missing.
pub proof fn lemma_get_del_same(o: Seq<(Seq<char>, JVal)>, k: Seq<char>)
    ensures
        obj_get(obj_del(o, k), k) == Option::<JVal>::None,
    decreases o.len(),
{
    if o.len() > 0 {
        lemma_get_del_same(o.drop_first(), k);
        if o[0].0 != k {
            assert((seq![o[0]] + obj_del(o.drop_first(), k)).drop_first() =~= obj_del(
                o.drop_first(),
                k,
            ));
        }
    }
}

/// A removal leaves every other field unchanged.
pub proof fn lemma_get_del_other(o: Seq<(Seq<char>, JVal)>, k: Seq<char>, k2: Seq<char>)
    requires
        k2 != k,
    ensures
        obj_get(obj_del(o, k), k2) == obj_get(o, k2),
    decreases o.len(),
{
    if o.len() > 0 {
        lemma_get_del_other(o.drop_first(), k, k2);
        if o[0].0 != k {
            assert((seq![o[0]] + obj_del(o.drop_first(), k)).drop_first() =~= obj_del(
                o.drop_first(),
                k,
            ));
        }
    }
}

/// A clean prefix can be skipped when looking a field up.
pub proof fn lemma_obj_get_skip(o: Seq<(Seq<char>, JVal)>, k: Seq<char>, i: int)
    requires
        0 <= i <= o.len(),
        forall|j: int| 0 <= j < i ==> o[j].0 != k,
    ensures
        obj_get(o, k) == obj_get(o.skip(i), k),
    decreases i,
{
    if i > 0 {
        lemma_obj_get_skip(o.drop_first(), k, i - 1);
        assert(o.drop_first().skip(i - 1) =~= o.skip(i));
    } else {
        assert(o.skip(0) =~= o);
    }
}

/// Assigning over the first field named `k` replaces that entry in place.
pub proof fn lemma_obj_set_at(o: Seq<(Seq<char>, JVal)>, k: Seq<char>, v: JVal, i: int)
    requires
        0 <= i < o.len(),
        o[i].0 == k,
        forall|j: int| 0 <= j < i ==> o[j].0 != k,
    ensures
        obj_set(o, k, v) == o.update(i, (k, v)),
    decreases i,
{
    if i == 0 {
        assert(seq![(k, v)] + o.drop_first() =~= o.update(0, (k, v)));
    } else {
        lemma_obj_set_at(o.drop_first(), k, v, i - 1);
        assert(seq![o[0]] + o.drop_first().update(i - 1, (k, v)) =~= o.update(i, (k, v)));
    }
}

/// Assigning a field that is absent appends it at the end.
pub proof fn lemma_obj_set_absent(o: Seq<(Seq<char>, JVal)>, k: Seq<char>, v: JVal)
    requires
        forall|j: int| 0 <= j < o.len() ==> o[j].0 != k,
    ensures
        obj_set(o, k, v) == o.push((k, v)),
    decreases o.len(),
{
    if o.len() == 0 {
        assert(seq![(k, v)] =~= o.push((k, v)));
    } else {
        lemma_obj_set_absent(o.drop_first(), k, v);
        assert(seq![o[0]] + o.drop_first().push((k, v)) =~= o.push((k, v)));
    }
}

/// Removal distributes over concatenation.
pub proof fn lemma_obj_del_concat(a: Seq<(Seq<char>, JVal)>, b: Seq<(Seq<char>, JVal)>, k: Seq<
    char,
>)
    ensures
        obj_del(a + b, k) == obj_del(a, k) + obj_del(b, k),
    decreases a.len(),
{
    if a.len() == 0 {
        assert(a + b =~= b);
        assert(obj_del(a, k) + obj_del(b, k) =~= obj_del(b, k));
    } else {
        lemma_obj_del_concat(a.drop_first(), b, k);
        assert((a + b).drop_first() =~= a.drop_first() + b);
        if a[0].0 != k {
            assert(seq![a[0]] + (obj_del(a.drop_first(), k) + obj_del(b, k)) =~= (seq![a[0]]
                + obj_del(a.drop_first(), k)) + obj_del(b, k));
        }
    }
}

/// Equality of two string slices, stated over their character sequences.
pub fn str_eq(a: &str, b: &str) -> (r: bool)
    ensures
        r == (a@ == b@),
{
    let sa = a.to_owned();
    let sb = b.to_owned();
    sa == sb
}

impl Json {
    /// A deep copy whose view is the same.
    #[verifier::loop_isolation(false)]
    pub fn dup(&self) -> (r: Json)
        ensures
            r@ == self@,
        decreases *self,
    {
        match self {
            Json::Null => Json::Null,
            Json::Bool(b) => Json::Bool(*b),
            Json::Num(s) => Json::Num(s.clone()),
            Json::Str(s) => Json::Str(s.clone()),
            Json::Arr(v) => {
                let mut out: Vec<Json> = Vec::new();
                let mut i: usize = 0;
                while i < v.len()
                    invariant
                        i <= v.len(),
                        out@.len() == i as int,
                        forall|j: int| 0 <= j < i ==> out@[j]@ == v@[j]@,
                    decreases v.len() - i,
                {
                    proof {
                        broadcast use vstd::std_specs::vec::group_vec_axioms;

                        assert(decreases_to!(*self => self->Arr_0));
                        assert(decreases_to!(self->Arr_0 => self->Arr_0@));
                        assert(self->Arr_0@ == v@);
                        assert(decreases_to!(v@ => v@[i as int]));
                    }
                    let d = v[i].dup();
                    out.push(d);
                    i += 1;
                }
                proof {
                    lemma_jvals_of(out@);
                    lemma_jvals_of(v@);
                    assert(jvals_of(out@) =~= jvals_of(v@));
                }
                Json::Arr(out)
            },
            Json::Obj(v) => {
                let mut out: Vec<(String, Json)> = Vec::new();
                let mut i: usize = 0;
                while i < v.len()
                    invariant
                        i <= v.len(),
                        out@.len() == i as int,
                        forall|j: int| 0 <= j < i ==> out@[j].0@ == v@[j].0@ && out@[j].1@
                            == v@[j].1@,
                    decreases v.len() - i,
                {
                    proof {
                        broadcast use vstd::std_specs::vec::group_vec_axioms;

                        assert(decreases_to!(*self => self->Obj_0));
                        assert(decreases_to!(self->Obj_0 => self->Obj_0@));
                        assert(self->Obj_0@ == v@);
                        assert(decreases_to!(v@ => v@[i as int]));
                        assert(decreases_to!(v@[i as int] => v@[i as int].1));
                    }
                    let key = v[i].0.clone();
                    let d = v[i].1.dup();
                    out.push((key, d));
                    i += 1;
                }
                proof {
                    lemma_jpairs_of(out@);
                    lemma_jpairs_of(v@);
                    assert(jpairs_of(out@) =~= jpairs_of(v@));
                }
                Json::Obj(out)
            },
        }
    }
}


/// The value of the first field named `k`, if any.
pub fn get_field<'a>(o: &'a Vec<(String, Json)>, k: &str) -> (r: Option<&'a Json>)
    ensures
        match r {
            Option::Some(v) => obj_get(jpairs_of(o@), k@) == Option::Some(v@),
            Option::None => obj_get(jpairs_of(o@), k@) is None,
        },
{
    proof {
        lemma_jpairs_of(o@);
    }
    let ghost s = jpairs_of(o@);
    let mut i: usize = 0;
    while i < o.len()
        invariant
            i <= o@.len(),
            s == jpairs_of(o@),
            s.len() == o@.len(),
            forall|j: int| 0 <= j < i ==> s[j].0 != k@,
        decreases o@.len() - i,
    {
        proof {
            lemma_jpairs_of(o@);
        }
        if str_eq(o[i].0.as_str(), k) {
            proof {
                lemma_obj_get_skip(s, k@, i as int);
                assert(s.skip(i as int)[0] == s[i as int]);
            }
            return Option::Some(&o[i].1);
        }
        i += 1;
    }
    proof {
        lemma_obj_get_skip(s, k@, i as int);
        assert(s.skip(i as int) =~= Seq::<(Seq<char>, JVal)>::empty());
    }
    Option::None
}

/// Assign `v` to the field named `k`, as `obj_set` does.
pub fn set_field(o: &mut Vec<(String, Json)>, k: &str, v: Json)
    ensures
        jpairs_of(final(o)@) == obj_set(jpairs_of(old(o)@), k@, v@),
{
    proof {
        lemma_jpairs_of(o@);
    }
    let ghost s = jpairs_of(old(o)@);
    let ghost vv = v@;
    let mut i: usize = 0;
    while i < o.len()
        invariant
            i <= o@.len(),
            *o == *old(o),
            s == jpairs_of(o@),
            s.len() == o@.len(),
            vv == v@,
            forall|j: int| 0 <= j < i ==> s[j].0 != k@,
        decreases o@.len() - i,
    {
        proof {
            lemma_jpairs_of(o@);
        }
        if str_eq(o[i].0.as_str(), k) {
            o.remove(i);
            o.insert(i, (k.to_owned(), v));
            proof {
                lemma_obj_set_at(s, k@, vv, i as int);
                lemma_jpairs_of(o@);
                assert(o@ =~= old(o)@.update(i as int, (o@[i as int].0, o@[i as int].1)));
                assert(jpairs_of(o@) =~= s.update(i as int, (k@, vv)));
            }
            return ;
        }
        i += 1;
    }
    o.push((k.to_owned(), v));
    proof {
        lemma_obj_set_absent(s, k@, vv);
        lemma_jpairs_of(o@);
        assert(jpairs_of(o@) =~= s.push((k@, vv)));
    }
}

/// Remove every field named `k`, as `obj_del` does.
pub fn del_field(o: &mut Vec<(String, Json)>, k: &str)
    ensures
        jpairs_of(final(o)@) == obj_del(jpairs_of(old(o)@), k@),
{
    let ghost s = jpairs_of(old(o)@);
    let mut i: usize = 0;
    proof {
        lemma_jpairs_of(o@);
        assert(o@.take(0) =~= Seq::<(String, Json)>::empty());
        assert(o@.skip(0) =~= o@);
        assert(jpairs_of(o@.take(0)) + obj_del(jpairs_of(o@.skip(0)), k@) =~= obj_del(
            jpairs_of(o@),
            k@,
        ));
    }
    while i < o.len()
        invariant
            i <= o@.len(),
            obj_del(s, k@) == jpairs_of(o@.take(i as int)) + obj_del(
                jpairs_of(o@.skip(i as int)),
                k@,
            ),
            forall|j: int| 0 <= j < i ==> o@[j].0@ != k@,
        decreases o@.len() - i,
    {
        let ghost pre = o@;
        proof {
            lemma_jpairs_of(pre);
            lemma_jpairs_of(pre.skip(i as int));
            lemma_jpairs_of(pre.skip(i + 1));
            assert(jpairs_of(pre.skip(i as int)) =~= seq![(pre[i as int].0@, pre[i as int].1@)]
                + jpairs_of(pre.skip(i + 1)));
        }
        if str_eq(o[i].0.as_str(), k) {
            o.remove(i);
            proof {
                lemma_obj_del_concat(
                    seq![(pre[i as int].0@, pre[i as int].1@)],
                    jpairs_of(pre.skip(i + 1)),
                    k@,
                );
                assert(seq![(pre[i as int].0@, pre[i as int].1@)].drop_first()
                    =~= Seq::<(Seq<char>, JVal)>::empty());
                assert(obj_del(Seq::<(Seq<char>, JVal)>::empty(), k@)
                    =~= Seq::<(Seq<char>, JVal)>::empty());
                assert(obj_del(seq![(pre[i as int].0@, pre[i as int].1@)], k@)
                    =~= Seq::<(Seq<char>, JVal)>::empty());
                assert(Seq::<(Seq<char>, JVal)>::empty() + obj_del(jpairs_of(pre.skip(i + 1)), k@)
                    =~= obj_del(jpairs_of(pre.skip(i + 1)), k@));
                assert(o@.take(i as int) =~= pre.take(i as int));
                assert(o@.skip(i as int) =~= pre.skip(i + 1));
            }
        } else {
            proof {
                lemma_obj_del_concat(
                    seq![(pre[i as int].0@, pre[i as int].1@)],
                    jpairs_of(pre.skip(i + 1)),
                    k@,
                );
                assert(seq![(pre[i as int].0@, pre[i as int].1@)].drop_first()
                    =~= Seq::<(Seq<char>, JVal)>::empty());
                assert(obj_del(Seq::<(Seq<char>, JVal)>::empty(), k@)
                    =~= Seq::<(Seq<char>, JVal)>::empty());
                assert(obj_del(seq![(pre[i as int].0@, pre[i as int].1@)], k@) =~= seq![
                    (pre[i as int].0@, pre[i as int].1@),
                ]);
                lemma_jpairs_of(pre.take(i as int));
                lemma_jpairs_of(pre.take(i + 1));
                assert(jpairs_of(pre.take(i + 1)) =~= jpairs_of(pre.take(i as int)) + seq![
                    (pre[i as int].0@, pre[i as int].1@),
                ]);
                assert(jpairs_of(pre.take(i as int)) + (seq![(pre[i as int].0@, pre[i as int].1@)]
                    + obj_del(jpairs_of(pre.skip(i + 1)), k@)) =~= jpairs_of(pre.take(i + 1))
                    + obj_del(jpairs_of(pre.skip(i + 1)), k@));
            }
            i += 1;
        }
    }
    proof {
        lemma_jpairs_of(o@);
        assert(o@.take(i as int) =~= o@);
        assert(o@.skip(i as int) =~= Seq::<(String, Json)>::empty());
        assert(jpairs_of(o@) + obj_del(jpairs_of(o@.skip(i as int)), k@) =~= jpairs_of(o@));
    }
}

} // verus!
