//! The operand classifier: splits the raw command-line operands into flags,
//! document keys and patch specs, chooses the patch mode, and decides whether
//! standard input will be needed.

use vstd::prelude::*;
use vstd::string::StrSliceExecFns;

use crate::errors::CoreError;
use crate::value::str_eq;

verus! {

/// The patch mode for whole-document patches, chosen once from the flags.
#[derive(Clone, Copy, Debug, PartialEq, Eq, Structural)]
pub enum Mode {
    DirectAssign,
    JsonMergePatch,
    JsonPatch,
}

/// The character sequences of a list of operands.
pub open spec fn views_of(ss: Seq<String>) -> Seq<Seq<char>> {
    ss.map_values(|s: String| s@)
}

/// The operand that switches the write-back off.
pub open spec fn is_dry_run_flag(s: Seq<char>) -> bool {
    s == "--dry-run"@
}

/// The operand that selects RFC 6902 mode.
pub open spec fn is_json_patch_flag(s: Seq<char>) -> bool {
    s == "--json-patch"@
}

/// A recognized control flag.
pub open spec fn is_flag(s: Seq<char>) -> bool {
    is_dry_run_flag(s) || is_json_patch_flag(s)
}

/// The bare stdin marker.
pub open spec fn is_stdin_marker(s: Seq<char>) -> bool {
    s == "--"@
}

/// The position of the first `=`, or the length if there is none.
pub open spec fn eq_pos(s: Seq<char>) -> int
    decreases s.len(),
{
    if s.len() == 0 {
        0
    } else if s[0] == '=' {
        0
    } else {
        1 + eq_pos(s.drop_first())
    }
}

/// `eq_pos` finds the first `=` and nothing before it.
pub proof fn lemma_eq_pos(s: Seq<char>)
    ensures
        0 <= eq_pos(s) <= s.len(),
        eq_pos(s) < s.len() ==> s[eq_pos(s)] == '=',
        forall|j: int| 0 <= j < eq_pos(s) ==> s[j] != '=',
    decreases s.len(),
{
    if s.len() > 0 && s[0] != '=' {
        lemma_eq_pos(s.drop_first());
        assert forall|j: int| 0 <= j < eq_pos(s) implies s[j] != '=' by {
            if j > 0 {
                assert(s.drop_first()[j - 1] == s[j]);
            }
        }
    }
}

/// Whether the operand contains an `=`.
pub open spec fn has_eq(s: Seq<char>) -> bool {
    eq_pos(s) < s.len()
}

/// The text before the first `=`.
pub open spec fn field_of(s: Seq<char>) -> Seq<char> {
    s.subrange(0, eq_pos(s))
}

/// The text after the first `=`.
pub open spec fn value_of(s: Seq<char>) -> Seq<char> {
    s.subrange(eq_pos(s) + 1, s.len() as int)
}

/// A patch operand: it contains `=` or is the bare stdin marker.
pub open spec fn is_patch_spec(s: Seq<char>) -> bool {
    has_eq(s) || is_stdin_marker(s)
}

/// Whether one patch spec asks for standard input.
pub open spec fn references_stdin(s: Seq<char>) -> bool {
    is_stdin_marker(s) || (has_eq(s) && value_of(s) == "--"@)
}

/// Whether any patch spec in the list asks for standard input.
pub open spec fn needs_stdin(ss: Seq<Seq<char>>) -> bool {
    exists|i: int| 0 <= i < ss.len() && references_stdin(ss[i])
}

/// The document keys among the operands: neither flags nor patch specs.
pub open spec fn keys_of(ops: Seq<Seq<char>>) -> Seq<Seq<char>>
    decreases ops.len(),
{
    if ops.len() == 0 {
        Seq::empty()
    } else {
        let rest = keys_of(ops.drop_last());
        if !is_flag(ops.last()) && !is_patch_spec(ops.last()) {
            rest.push(ops.last())
        } else {
            rest
        }
    }
}

/// The patch specs among the operands, in order, flags removed.
pub open spec fn specs_of(ops: Seq<Seq<char>>) -> Seq<Seq<char>>
    decreases ops.len(),
{
    if ops.len() == 0 {
        Seq::empty()
    } else {
        let rest = specs_of(ops.drop_last());
        if !is_flag(ops.last()) && is_patch_spec(ops.last()) {
            rest.push(ops.last())
        } else {
            rest
        }
    }
}

/// Whether the dry-run flag occurs among the operands.
pub open spec fn has_dry_run(ops: Seq<Seq<char>>) -> bool {
    exists|i: int| 0 <= i < ops.len() && is_dry_run_flag(ops[i])
}

/// Whether the RFC 6902 mode flag occurs among the operands.
pub open spec fn has_json_patch(ops: Seq<Seq<char>>) -> bool {
    exists|i: int| 0 <= i < ops.len() && is_json_patch_flag(ops[i])
}

/// The classified operands.
pub struct Classified {
    pub dry_run: bool,
    pub mode: Mode,
    pub keys: Vec<String>,
    pub specs: Vec<String>,
    pub needs_stdin: bool,
}

/// The position of the first `=` in the slice, or its character length.
pub(crate) fn find_eq(s: &str) -> (r: usize)
    ensures
        r as int == eq_pos(s@),
{
    proof {
        lemma_eq_pos(s@);
    }
    let n = s.unicode_len();
    let mut i: usize = 0;
    while i < n
        invariant
            i <= n,
            n == s@.len(),
            forall|j: int| 0 <= j < i ==> s@[j] != '=',
        decreases n - i,
    {
        if s.get_char(i) == '=' {
            proof {
                lemma_eq_pos(s@);
            }
            return i;
        }
        i += 1;
    }
    proof {
        lemma_eq_pos(s@);
    }
    n
}

/// Whether one patch spec asks for standard input.
fn spec_references_stdin(s: &str) -> (r: bool)
    ensures
        r == references_stdin(s@),
{
    if str_eq(s, "--") {
        return true;
    }
    let e = find_eq(s);
    let n = s.unicode_len();
    if e < n {
        let val = s.substring_char(e + 1, n);
        proof {
            assert(val@ =~= value_of(s@));
        }
        str_eq(val, "--")
    } else {
        false
    }
}

/// Split the operands into flags, keys and patch specs, and reject a call
/// without at least one key and one patch spec.
pub fn classify(operands: &Vec<String>) -> (r: Result<Classified, CoreError>)
    ensures
        ({
            let ops = views_of(operands@);
            match r {
                Ok(c) => {
                    &&& keys_of(ops).len() > 0
                    &&& specs_of(ops).len() > 0
                    &&& views_of(c.keys@) == keys_of(ops)
                    &&& views_of(c.specs@) == specs_of(ops)
                    &&& c.dry_run == has_dry_run(ops)
                    &&& c.mode == (if has_json_patch(ops) {
                        Mode::JsonPatch
                    } else {
                        Mode::DirectAssign
                    })
                    &&& c.needs_stdin == needs_stdin(specs_of(ops))
                },
                Err(e) => {
                    &&& (keys_of(ops).len() == 0 || specs_of(ops).len() == 0)
                    &&& e is Usage
                },
            }
        }),
{
    let ghost ops = views_of(operands@);
    let mut dry = false;
    let mut jp = false;
    let mut keys: Vec<String> = Vec::new();
    let mut specs: Vec<String> = Vec::new();
    let mut needs = false;
    let mut i: usize = 0;
    proof {
        assert(ops.take(0) =~= Seq::<Seq<char>>::empty());
    }
    while i < operands.len()
        invariant
            i <= operands@.len(),
            ops == views_of(operands@),
            ops.len() == operands@.len(),
            dry == has_dry_run(ops.take(i as int)),
            jp == has_json_patch(ops.take(i as int)),
            views_of(keys@) == keys_of(ops.take(i as int)),
            views_of(specs@) == specs_of(ops.take(i as int)),
            needs == needs_stdin(specs_of(ops.take(i as int))),
        decreases operands@.len() - i,
    {
        let s: &String = &operands[i];
        proof {
            assert(ops[i as int] == s@);
            assert(ops.take(i + 1).drop_last() =~= ops.take(i as int));
            assert(ops.take(i + 1).last() == ops[i as int]);
        }
        if str_eq(s.as_str(), "--dry-run") {
            dry = true;
            proof {
                assert(has_dry_run(ops.take(i + 1))) by {
                    assert(ops.take(i + 1)[i as int] == ops[i as int]);
                }
                assert(keys_of(ops.take(i + 1)) == keys_of(ops.take(i as int)));
                assert(specs_of(ops.take(i + 1)) == specs_of(ops.take(i as int)));
                assert(has_json_patch(ops.take(i + 1)) == has_json_patch(ops.take(i as int)))
                    by {
                    if has_json_patch(ops.take(i as int)) {
                        let w = choose|w: int|
                            0 <= w < ops.take(i as int).len() && #[trigger] is_json_patch_flag(
                                ops.take(i as int)[w],
                            );
                        assert(#[trigger] is_json_patch_flag(ops.take(i + 1)[w]));
                    }
                    if has_json_patch(ops.take(i + 1)) {
                        let w = choose|w: int|
                            0 <= w < ops.take(i + 1).len() && #[trigger] is_json_patch_flag(
                                ops.take(i + 1)[w],
                            );
                        assert(w < i + 1);
                        reveal_strlit("--dry-run");
                        reveal_strlit("--json-patch");
                        assert(w != i);
                        assert(is_json_patch_flag(ops.take(i as int)[w]));
                    }
                }
            }
        } else if str_eq(s.as_str(), "--json-patch") {
            jp = true;
            proof {
                assert(has_json_patch(ops.take(i + 1))) by {
                    assert(ops.take(i + 1)[i as int] == ops[i as int]);
                }
                assert(keys_of(ops.take(i + 1)) == keys_of(ops.take(i as int)));
                assert(specs_of(ops.take(i + 1)) == specs_of(ops.take(i as int)));
                assert(has_dry_run(ops.take(i + 1)) == has_dry_run(ops.take(i as int))) by {
                    if has_dry_run(ops.take(i as int)) {
                        let w = choose|w: int|
                            0 <= w < ops.take(i as int).len() && #[trigger] is_dry_run_flag(
                                ops.take(i as int)[w],
                            );
                        assert(#[trigger] is_dry_run_flag(ops.take(i + 1)[w]));
                    }
                    if has_dry_run(ops.take(i + 1)) {
                        let w = choose|w: int|
                            0 <= w < ops.take(i + 1).len() && #[trigger] is_dry_run_flag(
                                ops.take(i + 1)[w],
                            );
                        assert(w < i + 1);
                        reveal_strlit("--dry-run");
                        reveal_strlit("--json-patch");
                        assert(w != i);
                        assert(is_dry_run_flag(ops.take(i as int)[w]));
                    }
                }
            }
        } else {
            let e = find_eq(s.as_str());
            let n = s.as_str().unicode_len();
            let is_spec = e < n || str_eq(s.as_str(), "--");
            proof {
                assert(is_spec == is_patch_spec(s@));
                assert(!is_flag(s@));
            }
            if is_spec {
                if spec_references_stdin(s.as_str()) {
                    needs = true;
                }
                specs.push(s.clone());
                proof {
                    assert(views_of(specs@) =~= specs_of(ops.take(i + 1)));
                    assert(keys_of(ops.take(i + 1)) == keys_of(ops.take(i as int)));
                    lemma_flag_scan_stable(ops, i as int);
                    assert(needs == needs_stdin(specs_of(ops.take(i + 1)))) by {
                        let ss0 = specs_of(ops.take(i as int));
                        let ss1 = specs_of(ops.take(i + 1));
                        assert(ss1 == ss0.push(s@));
                        if references_stdin(s@) {
                            assert(ss1[ss1.len() - 1] == s@);
                        } else {
                            if needs_stdin(ss0) {
                                let w = choose|w: int|
                                    0 <= w < ss0.len() && #[trigger] references_stdin(ss0[w]);
                                assert(references_stdin(ss1[w]));
                            }
                            if needs_stdin(ss1) {
                                let w = choose|w: int|
                                    0 <= w < ss1.len() && #[trigger] references_stdin(ss1[w]);
                                if w < ss0.len() {
                                    assert(references_stdin(ss0[w]));
                                } else {
                                    assert(ss1[w] == s@);
                                }
                            }
                        }
                    }
                }
            } else {
                keys.push(s.clone());
                proof {
                    assert(views_of(keys@) =~= keys_of(ops.take(i + 1)));
                    assert(specs_of(ops.take(i + 1)) == specs_of(ops.take(i as int)));
                    lemma_flag_scan_stable(ops, i as int);
                }
            }
        }
        i += 1;
    }
    proof {
        assert(ops.take(i as int) =~= ops);
    }
    if keys.len() == 0 || specs.len() == 0 {
        return Err(CoreError::Usage);
    }
    Ok(
        Classified {
            dry_run: dry,
            mode: if jp {
                Mode::JsonPatch
            } else {
                Mode::DirectAssign
            },
            keys,
            specs,
            needs_stdin: needs,
        },
    )
}

/// The two flag predicates are untouched by pushing a non-flag operand.
proof fn lemma_flag_scan_stable(ops: Seq<Seq<char>>, i: int)
    requires
        0 <= i < ops.len(),
        !is_flag(ops[i]),
    ensures
        has_dry_run(ops.take(i + 1)) == has_dry_run(ops.take(i)),
        has_json_patch(ops.take(i + 1)) == has_json_patch(ops.take(i)),
{
    if has_dry_run(ops.take(i)) {
        let w = choose|w: int| 0 <= w < ops.take(i).len() && #[trigger] is_dry_run_flag(ops.take(i)[w]);
        assert(is_dry_run_flag(ops.take(i + 1)[w]));
    }
    if has_dry_run(ops.take(i + 1)) {
        let w = choose|w: int| 0 <= w < ops.take(i + 1).len() && #[trigger] is_dry_run_flag(ops.take(i + 1)[w]);
        if w < i {
            assert(#[trigger] is_dry_run_flag(ops.take(i)[w]));
        } else {
            assert(ops.take(i + 1)[w] == ops[i]);
            assert(false);
        }
    }
    if has_json_patch(ops.take(i)) {
        let w = choose|w: int| 0 <= w < ops.take(i).len() && #[trigger] is_json_patch_flag(ops.take(i)[w]);
        assert(is_json_patch_flag(ops.take(i + 1)[w]));
    }
    if has_json_patch(ops.take(i + 1)) {
        let w = choose|w: int|
            0 <= w < ops.take(i + 1).len() && #[trigger] is_json_patch_flag(ops.take(i + 1)[w]);
        if w < i {
            assert(#[trigger] is_json_patch_flag(ops.take(i)[w]));
        } else {
            assert(ops.take(i + 1)[w] == ops[i]);
            assert(false);
        }
    }
}



} // verus!
