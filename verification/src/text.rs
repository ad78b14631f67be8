//! Rendering a JSON value as text, in a compact form for the write path and a
//! pretty two-space-indented form for previewing. Both forms are specified by
//! one family of spec functions and the writer is verified against them.

use vstd::prelude::*;
use vstd::string::StringExecFns;
use vstd::string::StrSliceExecFns;

use crate::value::{Json, JVal, jvals_of, jpairs_of, lemma_jvals_of, lemma_jpairs_of};
use crate::bridge::push_char;

verus! {

/// The sixteen hexadecimal digit characters.
pub open spec fn hex16(d: int) -> char {
    if d == 0 {
        '0'
    } else if d == 1 {
        '1'
    } else if d == 2 {
        '2'
    } else if d == 3 {
        '3'
    } else if d == 4 {
        '4'
    } else if d == 5 {
        '5'
    } else if d == 6 {
        '6'
    } else if d == 7 {
        '7'
    } else if d == 8 {
        '8'
    } else if d == 9 {
        '9'
    } else if d == 10 {
        'a'
    } else if d == 11 {
        'b'
    } else if d == 12 {
        'c'
    } else if d == 13 {
        'd'
    } else if d == 14 {
        'e'
    } else {
        'f'
    }
}

/// The escaped form of one character inside a JSON string literal.
pub open spec fn esc_char(c: char) -> Seq<char> {
    if c == '"' {
        seq!['\\', '"']
    } else if c == '\\' {
        seq!['\\', '\\']
    } else if c == '\n' {
        seq!['\\', 'n']
    } else if c == '\r' {
        seq!['\\', 'r']
    } else if c == '\t' {
        seq!['\\', 't']
    } else if c == '\u{0008}' {
        seq!['\\', 'b']
    } else if c == '\u{000C}' {
        seq!['\\', 'f']
    } else if (c as u32) < 32 {
        seq!['\\', 'u', '0', '0', hex16(c as u32 as int / 16), hex16(c as u32 as int % 16)]
    } else {
        seq![c]
    }
}

/// The escaped form of a whole string body.
pub open spec fn esc_str(s: Seq<char>) -> Seq<char>
    decreases s.len(),
{
    if s.len() == 0 {
        Seq::empty()
    } else {
        esc_str(s.drop_last()) + esc_char(s.last())
    }
}

/// A JSON string literal: quoted and escaped.
pub open spec fn string_lit(s: Seq<char>) -> Seq<char> {
    seq!['"'] + esc_str(s) + seq!['"']
}

/// The line break after an opening bracket, in the pretty form only.
pub open spec fn open_break(pad2: Seq<char>, pretty: bool) -> Seq<char> {
    if pretty {
        seq!['\n'] + pad2
    } else {
        Seq::empty()
    }
}

/// The line break before a closing bracket, in the pretty form only.
pub open spec fn close_break(pad: Seq<char>, pretty: bool) -> Seq<char> {
    if pretty {
        seq!['\n'] + pad
    } else {
        Seq::empty()
    }
}

/// The separator between two elements or fields.
pub open spec fn elem_sep(pad2: Seq<char>, pretty: bool) -> Seq<char> {
    if pretty {
        seq![',', '\n'] + pad2
    } else {
        seq![',']
    }
}

/// The rendered text of a JSON value at indentation `pad`.
pub open spec fn render_val(j: JVal, pad: Seq<char>, pretty: bool) -> Seq<char>
    decreases j,
    via render_val_decreases
{
    match j {
        JVal::Null => seq!['n', 'u', 'l', 'l'],
        JVal::Bool(b) => if b {
            seq!['t', 'r', 'u', 'e']
        } else {
            seq!['f', 'a', 'l', 's', 'e']
        },
        JVal::Num(s) => s,
        JVal::Str(s) => string_lit(s),
        JVal::Arr(a) => {
            if a.len() == 0 {
                seq!['[', ']']
            } else {
                let pad2 = pad + seq![' ', ' '];
                seq!['['] + open_break(pad2, pretty) + render_arr(a, pad2, pretty) + close_break(
                    pad,
                    pretty,
                ) + seq![']']
            }
        },
        JVal::Obj(o) => {
            if o.len() == 0 {
                seq!['{', '}']
            } else {
                let pad2 = pad + seq![' ', ' '];
                seq!['{'] + open_break(pad2, pretty) + render_obj(o, pad2, pretty) + close_break(
                    pad,
                    pretty,
                ) + seq!['}']
            }
        },
    }
}

/// The rendered elements of an array, joined by the separator.
pub open spec fn render_arr(a: Seq<JVal>, pad: Seq<char>, pretty: bool) -> Seq<char>
    decreases a,
    via render_arr_decreases
{
    if a.len() == 0 {
        Seq::empty()
    } else if a.len() == 1 {
        render_val(a[0], pad, pretty)
    } else {
        render_arr(a.drop_last(), pad, pretty) + elem_sep(pad, pretty) + render_val(
            a.last(),
            pad,
            pretty,
        )
    }
}

/// The rendered text of one object field.
pub open spec fn render_entry(p: (Seq<char>, JVal), pad: Seq<char>, pretty: bool) -> Seq<char>
    decreases p,
{
    string_lit(p.0) + seq![':'] + (if pretty {
        seq![' ']
    } else {
        Seq::empty()
    }) + render_val(p.1, pad, pretty)
}

/// The rendered fields of an object, joined by the separator.
pub open spec fn render_obj(o: Seq<(Seq<char>, JVal)>, pad: Seq<char>, pretty: bool) -> Seq<char>
    decreases o,
    via render_obj_decreases
{
    if o.len() == 0 {
        Seq::empty()
    } else if o.len() == 1 {
        render_entry(o[0], pad, pretty)
    } else {
        render_obj(o.drop_last(), pad, pretty) + elem_sep(pad, pretty) + render_entry(
            o.last(),
            pad,
            pretty,
        )
    }
}

#[via_fn]
proof fn render_val_decreases(j: JVal, pad: Seq<char>, pretty: bool) {
    match j {
        JVal::Arr(a) => {
            assert(decreases_to!(j => a));
        },
        JVal::Obj(o) => {
            assert(decreases_to!(j => o));
        },
        _ => {},
    }
}

#[via_fn]
proof fn render_arr_decreases(a: Seq<JVal>, pad: Seq<char>, pretty: bool) {
    if a.len() == 1 {
        assert(decreases_to!(a => a[0]));
    } else if a.len() > 1 {
        assert(decreases_to!(a => a.last()));
    }
}

#[via_fn]
proof fn render_obj_decreases(o: Seq<(Seq<char>, JVal)>, pad: Seq<char>, pretty: bool) {
    if o.len() == 1 {
        assert(decreases_to!(o => o[0]));
    } else if o.len() > 1 {
        assert(decreases_to!(o => o.last()));
    }
}

/// The compact rendering, used for the written-back document bytes.
pub open spec fn compact_of(j: JVal) -> Seq<char> {
    render_val(j, Seq::empty(), false)
}

/// The pretty rendering, used for previewing a document.
pub open spec fn pretty_of(j: JVal) -> Seq<char> {
    render_val(j, Seq::empty(), true)
}

/// One hexadecimal digit character.
fn hex_char(d: u32) -> (c: char)
    requires
        d < 16,
    ensures
        c == hex16(d as int),
{
    if d == 0 {
        '0'
    } else if d == 1 {
        '1'
    } else if d == 2 {
        '2'
    } else if d == 3 {
        '3'
    } else if d == 4 {
        '4'
    } else if d == 5 {
        '5'
    } else if d == 6 {
        '6'
    } else if d == 7 {
        '7'
    } else if d == 8 {
        '8'
    } else if d == 9 {
        '9'
    } else if d == 10 {
        'a'
    } else if d == 11 {
        'b'
    } else if d == 12 {
        'c'
    } else if d == 13 {
        'd'
    } else if d == 14 {
        'e'
    } else {
        'f'
    }
}

/// Append the escaped form of one character.
fn write_escaped(c: char, out: &mut String)
    ensures
        final(out)@ == old(out)@ + esc_char(c),
{
    if c == '"' {
        out.append("\\\"");
        proof {
            reveal_strlit("\\\"");
            assert(old(out)@ + "\\\""@ =~= old(out)@ + esc_char(c));
        }
    } else if c == '\\' {
        out.append("\\\\");
        proof {
            reveal_strlit("\\\\");
            assert(old(out)@ + "\\\\"@ =~= old(out)@ + esc_char(c));
        }
    } else if c == '\n' {
        out.append("\\n");
        proof {
            reveal_strlit("\\n");
            assert(old(out)@ + "\\n"@ =~= old(out)@ + esc_char(c));
        }
    } else if c == '\r' {
        out.append("\\r");
        proof {
            reveal_strlit("\\r");
            assert(old(out)@ + "\\r"@ =~= old(out)@ + esc_char(c));
        }
    } else if c == '\t' {
        out.append("\\t");
        proof {
            reveal_strlit("\\t");
            assert(old(out)@ + "\\t"@ =~= old(out)@ + esc_char(c));
        }
    } else if c == '\u{0008}' {
        out.append("\\b");
        proof {
            reveal_strlit("\\b");
            assert(old(out)@ + "\\b"@ =~= old(out)@ + esc_char(c));
        }
    } else if c == '\u{000C}' {
        out.append("\\f");
        proof {
            reveal_strlit("\\f");
            assert(old(out)@ + "\\f"@ =~= old(out)@ + esc_char(c));
        }
    } else if (c as u32) < 32 {
        let n = c as u32;
        out.append("\\u00");
        push_char(out, hex_char(n / 16));
        push_char(out, hex_char(n % 16));
        proof {
            reveal_strlit("\\u00");
            assert(((old(out)@ + "\\u00"@).push(hex16(n as int / 16))).push(hex16(n as int % 16))
                =~= old(out)@ + esc_char(c));
        }
    } else {
        push_char(out, c);
        proof {
            assert(old(out)@.push(c) =~= old(out)@ + esc_char(c));
        }
    }
}

/// Append a JSON string literal.
#[verifier::loop_isolation(false)]
fn write_string_lit(s: &str, out: &mut String)
    ensures
        final(out)@ == old(out)@ + string_lit(s@),
{
    out.append("\"");
    proof {
        reveal_strlit("\"");
        assert(s@.take(0) =~= Seq::<char>::empty());
        assert(old(out)@ + "\""@ =~= old(out)@ + seq!['"'] + esc_str(s@.take(0)));
    }
    let n = s.unicode_len();
    let mut i: usize = 0;
    while i < n
        invariant
            i <= n,
            n == s@.len(),
            out@ == old(out)@ + seq!['"'] + esc_str(s@.take(i as int)),
        decreases n - i,
    {
        let c = s.get_char(i);
        write_escaped(c, out);
        proof {
            assert(s@.take(i + 1).drop_last() =~= s@.take(i as int));
            assert(s@.take(i + 1).last() == c);
            assert((old(out)@ + seq!['"'] + esc_str(s@.take(i as int))) + esc_char(c) =~= old(out)@
                + seq!['"'] + esc_str(s@.take(i + 1)));
        }
        i += 1;
    }
    out.append("\"");
    proof {
        reveal_strlit("\"");
        assert(s@.take(n as int) =~= s@);
        assert((old(out)@ + seq!['"'] + esc_str(s@)) + "\""@ =~= old(out)@ + string_lit(s@));
    }
}

/// Append the rendered text of a JSON value at indentation `pad`.
#[verifier::loop_isolation(false)]
#[verifier::rlimit(100)]
pub fn write_val(j: &Json, pad: &str, pretty: bool, out: &mut String)
    ensures
        final(out)@ == old(out)@ + render_val(j@, pad@, pretty),
    decreases *j,
{
    match j {
        Json::Null => {
            out.append("null");
            proof {
                reveal_strlit("null");
                assert(old(out)@ + "null"@ =~= old(out)@ + render_val(j@, pad@, pretty));
            }
        },
        Json::Bool(b) => {
            if *b {
                out.append("true");
                proof {
                    reveal_strlit("true");
                    assert(old(out)@ + "true"@ =~= old(out)@ + render_val(j@, pad@, pretty));
                }
            } else {
                out.append("false");
                proof {
                    reveal_strlit("false");
                    assert(old(out)@ + "false"@ =~= old(out)@ + render_val(j@, pad@, pretty));
                }
            }
        },
        Json::Num(s) => {
            out.append(s.as_str());
        },
        Json::Str(s) => {
            write_string_lit(s.as_str(), out);
        },
        Json::Arr(v) => {
            if v.len() == 0 {
                out.append("[]");
                proof {
                    reveal_strlit("[]");
                    assert(jvals_of(v@) =~= Seq::<JVal>::empty());
                    assert(old(out)@ + "[]"@ =~= old(out)@ + render_val(j@, pad@, pretty));
                }
            } else {
                let mut pad2: String = pad.to_owned();
                pad2.append("  ");
                proof {
                    reveal_strlit("  ");
                    assert(pad2@ =~= pad@ + seq![' ', ' ']);
                }
                let ghost a = jvals_of(v@);
                proof {
                    lemma_jvals_of(v@);
                }
                out.append("[");
                if pretty {
                    out.append("\n");
                    out.append(pad2.as_str());
                }
                let ghost prefix0 = old(out)@ + seq!['['] + open_break(pad2@, pretty);
                proof {
                    reveal_strlit("[");
                    reveal_strlit("\n");
                    assert(out@ =~= prefix0);
                }
                proof {
                    broadcast use vstd::std_specs::vec::group_vec_axioms;

                    assert(decreases_to!(*j => j->Arr_0));
                    assert(decreases_to!(j->Arr_0 => j->Arr_0@));
                    assert(j->Arr_0@ == v@);
                    assert(decreases_to!(v@ => v@[0]));
                }
                write_val(&v[0], pad2.as_str(), pretty, out);
                proof {
                    assert(a.take(1) =~= seq![a[0]]);
                    assert(out@ =~= prefix0 + render_arr(a.take(1), pad2@, pretty));
                }
                let mut m: usize = 1;
                while m < v.len()
                    invariant
                        1 <= m <= v@.len(),
                        out@ == prefix0 + render_arr(a.take(m as int), pad2@, pretty),
                    decreases v@.len() - m,
                {
                    out.append(",");
                    if pretty {
                        out.append("\n");
                        out.append(pad2.as_str());
                    }
                    proof {
                        reveal_strlit(",");
                        reveal_strlit("\n");
                        assert(out@ =~= prefix0 + render_arr(a.take(m as int), pad2@, pretty)
                            + elem_sep(pad2@, pretty));
                    }
                    proof {
                        broadcast use vstd::std_specs::vec::group_vec_axioms;

                        assert(decreases_to!(*j => j->Arr_0));
                        assert(decreases_to!(j->Arr_0 => j->Arr_0@));
                        assert(j->Arr_0@ == v@);
                        assert(decreases_to!(v@ => v@[m as int]));
                    }
                    write_val(&v[m], pad2.as_str(), pretty, out);
                    proof {
                        assert(a.take(m + 1).drop_last() =~= a.take(m as int));
                        assert(a.take(m + 1).last() == a[m as int]);
                        assert(out@ =~= prefix0 + render_arr(a.take(m + 1), pad2@, pretty));
                    }
                    m += 1;
                }
                if pretty {
                    out.append("\n");
                    out.append(pad);
                }
                out.append("]");
                proof {
                    reveal_strlit("]");
                    reveal_strlit("\n");
                    assert(a.take(a.len() as int) =~= a);
                    assert(out@ =~= old(out)@ + render_val(j@, pad@, pretty));
                }
            }
        },
        Json::Obj(v) => {
            if v.len() == 0 {
                out.append("{}");
                proof {
                    reveal_strlit("{}");
                    assert(jpairs_of(v@) =~= Seq::<(Seq<char>, JVal)>::empty());
                    assert(old(out)@ + "{}"@ =~= old(out)@ + render_val(j@, pad@, pretty));
                }
            } else {
                let mut pad2: String = pad.to_owned();
                pad2.append("  ");
                proof {
                    reveal_strlit("  ");
                    assert(pad2@ =~= pad@ + seq![' ', ' ']);
                }
                let ghost a = jpairs_of(v@);
                proof {
                    lemma_jpairs_of(v@);
                }
                out.append("{");
                if pretty {
                    out.append("\n");
                    out.append(pad2.as_str());
                }
                let ghost prefix0 = old(out)@ + seq!['{'] + open_break(pad2@, pretty);
                proof {
                    reveal_strlit("{");
                    reveal_strlit("\n");
                    assert(out@ =~= prefix0);
                }
                write_entry(j, v, 0, pad2.as_str(), pretty, out);
                proof {
                    assert(a.take(1) =~= seq![a[0]]);
                    assert(out@ =~= prefix0 + render_obj(a.take(1), pad2@, pretty));
                }
                let mut m: usize = 1;
                while m < v.len()
                    invariant
                        1 <= m <= v@.len(),
                        out@ == prefix0 + render_obj(a.take(m as int), pad2@, pretty),
                    decreases v@.len() - m,
                {
                    out.append(",");
                    if pretty {
                        out.append("\n");
                        out.append(pad2.as_str());
                    }
                    proof {
                        reveal_strlit(",");
                        reveal_strlit("\n");
                        assert(out@ =~= prefix0 + render_obj(a.take(m as int), pad2@, pretty)
                            + elem_sep(pad2@, pretty));
                    }
                    write_entry(j, v, m, pad2.as_str(), pretty, out);
                    proof {
                        assert(a.take(m + 1).drop_last() =~= a.take(m as int));
                        assert(a.take(m + 1).last() == a[m as int]);
                        assert(out@ =~= prefix0 + render_obj(a.take(m + 1), pad2@, pretty));
                    }
                    m += 1;
                }
                if pretty {
                    out.append("\n");
                    out.append(pad);
                }
                out.append("}");
                proof {
                    reveal_strlit("}");
                    reveal_strlit("\n");
                    assert(a.take(a.len() as int) =~= a);
                    assert(out@ =~= old(out)@ + render_val(j@, pad@, pretty));
                }
            }
        },
    }
}

/// Append one rendered object field of `v`, which must sit inside `j`.
fn write_entry(j: &Json, v: &Vec<(String, Json)>, m: usize, pad2: &str, pretty: bool, out: &mut String)
    requires
        *j == Json::Obj(*v),
        m < v@.len(),
    ensures
        final(out)@ == old(out)@ + render_entry(jpairs_of(v@)[m as int], pad2@, pretty),
    decreases *j, 0int,
{
    proof {
        lemma_jpairs_of(v@);
    }
    write_string_lit(v[m].0.as_str(), out);
    out.append(":");
    if pretty {
        out.append(" ");
    }
    proof {
        broadcast use vstd::std_specs::vec::group_vec_axioms;

        assert(decreases_to!(*j => j->Obj_0));
        assert(decreases_to!(j->Obj_0 => j->Obj_0@));
        assert(j->Obj_0@ == v@);
        assert(decreases_to!(v@ => v@[m as int]));
        assert(decreases_to!(v@[m as int] => v@[m as int].1));
    }
    write_val(&v[m].1, pad2, pretty, out);
    proof {
        reveal_strlit(":");
        reveal_strlit(" ");
        assert(final(out)@ =~= old(out)@ + render_entry(jpairs_of(v@)[m as int], pad2@, pretty));
    }
}

/// The pretty rendering of a value, for previewing.
pub fn to_pretty_text(j: &Json) -> (r: String)
    ensures
        r@ == pretty_of(j@),
{
    let mut out = String::new();
    write_val(j, "", true, &mut out);
    proof {
        reveal_strlit("");
        assert(""@ =~= Seq::<char>::empty());
        assert(out@ =~= pretty_of(j@));
    }
    out
}

/// The compact rendering of a value, for the write path.
pub fn to_compact_text(j: &Json) -> (r: String)
    ensures
        r@ == compact_of(j@),
{
    let mut out = String::new();
    write_val(j, "", false, &mut out);
    proof {
        reveal_strlit("");
        assert(""@ =~= Seq::<char>::empty());
        assert(out@ =~= compact_of(j@));
    }
    out
}

/// The compact rendering of a value, as UTF-8 bytes.
pub fn to_bytes(j: &Json) -> (r: Vec<u8>)
    ensures
        r@ == vstd::utf8::encode_utf8(compact_of(j@)),
{
    let t = to_compact_text(j);
    t.as_str().as_bytes_vec()
}

} // verus!
