//! The patch-operand parser: each operand becomes a normalized patch, a pair
//! of an optional target field and a JSON value, with the stdin marker
//! resolved against the one materialized stdin value.

use vstd::prelude::*;
use vstd::string::StrSliceExecFns;

use crate::bridge::{parse_json, json_of_text};
use crate::classify::{is_stdin_marker, has_eq, eq_pos, field_of, value_of};
use crate::errors::CoreError;
use crate::value::{Json, JVal, str_eq};

verus! {

/// One normalized patch. A missing target means a whole-document patch; a
/// present target means unconditional assignment to that field of the root.
#[derive(Debug, PartialEq, Eq)]
pub struct NormalizedPatch {
    pub target: Option<String>,
    pub value: Json,
}

impl View for NormalizedPatch {
    type V = (Option<Seq<char>>, JVal);

    open spec fn view(&self) -> (Option<Seq<char>>, JVal) {
        (
            match self.target {
                Option::Some(t) => Option::Some(t@),
                Option::None => Option::None,
            },
            self.value@,
        )
    }
}

/// The view of the one materialized stdin value, if any.
pub open spec fn stdin_view(o: Option<Json>) -> Option<JVal> {
    match o {
        Option::Some(j) => Option::Some(j@),
        Option::None => Option::None,
    }
}

/// How one patch-operand parse can fail.
pub enum ParseFailure {
    /// No `=` and not the stdin marker, or an empty field name.
    BadSpec,
    /// The value segment is not valid JSON.
    BadJson,
    /// Stdin is referenced but was never materialized.
    NoInput,
}

/// What parsing one patch operand yields, given the materialized stdin value.
pub open spec fn parsed_patch(s: Seq<char>, stdin: Option<JVal>) -> Result<
    (Option<Seq<char>>, JVal),
    ParseFailure,
> {
    if is_stdin_marker(s) {
        match stdin {
            Option::Some(v) => Ok((Option::None, v)),
            Option::None => Err(ParseFailure::NoInput),
        }
    } else if !has_eq(s) || eq_pos(s) == 0 {
        Err(ParseFailure::BadSpec)
    } else if value_of(s) == "--"@ {
        match stdin {
            Option::Some(v) => Ok((Option::Some(field_of(s)), v)),
            Option::None => Err(ParseFailure::NoInput),
        }
    } else {
        match json_of_text(value_of(s)) {
            Option::Some(j) => Ok((Option::Some(field_of(s)), j)),
            Option::None => Err(ParseFailure::BadJson),
        }
    }
}

/// Whether an error value reports the given parse failure for operand `s`.
pub open spec fn reports_failure(e: CoreError, f: ParseFailure, s: Seq<char>) -> bool {
    match f {
        ParseFailure::BadSpec => e matches CoreError::InvalidSpec(t) && t@ == s,
        ParseFailure::BadJson => e matches CoreError::InvalidJson(t, _m) && t@ == s,
        ParseFailure::NoInput => e is MissingInput,
    }
}

/// Parse one patch operand against the materialized stdin value.
pub fn parse_patch(spec_text: &String, stdin_value: &Option<Json>) -> (r: Result<
    NormalizedPatch,
    CoreError,
>)
    ensures
        ({
            let out = parsed_patch(spec_text@, stdin_view(*stdin_value));
            match r {
                Ok(p) => out is Ok && p@ == out->Ok_0,
                Err(e) => out is Err && reports_failure(e, out->Err_0, spec_text@),
            }
        }),
{
    if str_eq(spec_text.as_str(), "--") {
        return match stdin_value {
            Option::Some(v) => Ok(NormalizedPatch { target: Option::None, value: v.dup() }),
            Option::None => Err(CoreError::MissingInput),
        };
    }
    let e = crate::classify::find_eq(spec_text.as_str());
    let n = spec_text.as_str().unicode_len();
    if e >= n || e == 0 {
        return Err(CoreError::InvalidSpec(spec_text.clone()));
    }
    let field = spec_text.as_str().substring_char(0, e);
    let valtext = spec_text.as_str().substring_char(e + 1, n);
    proof {
        assert(field@ =~= field_of(spec_text@));
        assert(valtext@ =~= value_of(spec_text@));
    }
    if str_eq(valtext, "--") {
        return match stdin_value {
            Option::Some(v) => Ok(
                NormalizedPatch { target: Option::Some(field.to_owned()), value: v.dup() },
            ),
            Option::None => Err(CoreError::MissingInput),
        };
    }
    match parse_json(valtext) {
        Ok(j) => Ok(NormalizedPatch { target: Option::Some(field.to_owned()), value: j }),
        Err(m) => Err(CoreError::InvalidJson(spec_text.clone(), m)),
    }
}


/// Parse the materialized standard-input text as one JSON value; on failure
/// the error carries the raw captured text.
pub fn materialize_stdin(text: &String) -> (r: Result<Json, CoreError>)
    ensures
        (r is Ok) == (json_of_text(text@) is Some),
        r is Ok ==> Option::Some(r->Ok_0@) == json_of_text(text@),
        r matches Err(e) ==> e matches CoreError::InputParse(t, _m) && t@ == text@,
{
    match parse_json(text.as_str()) {
        Ok(j) => Ok(j),
        Err(m) => Err(CoreError::InputParse(text.clone(), m)),
    }
}

/// Parse every patch operand, in order, against the one materialized stdin
/// value; the first failing operand aborts the whole parse with its error.
pub fn parse_specs(specs: &Vec<String>, stdin_value: &Option<Json>) -> (r: Result<
    Vec<NormalizedPatch>,
    CoreError,
>)
    ensures
        ({
            let sv = stdin_view(*stdin_value);
            match r {
                Ok(ps) => {
                    &&& ps@.len() == specs@.len()
                    &&& forall|i: int|
                        0 <= i < specs@.len() ==> #[trigger] parsed_patch(specs@[i]@, sv) is Ok
                            && ps@[i]@ == parsed_patch(specs@[i]@, sv)->Ok_0
                },
                Err(e) => exists|i: int|
                    {
                        &&& 0 <= i < specs@.len()
                        &&& #[trigger] parsed_patch(specs@[i]@, sv) is Err
                        &&& reports_failure(e, parsed_patch(specs@[i]@, sv)->Err_0, specs@[i]@)
                        &&& forall|j: int| 0 <= j < i ==> #[trigger] parsed_patch(specs@[j]@, sv) is Ok
                    },
            }
        }),
{
    let ghost sv = stdin_view(*stdin_value);
    let mut out: Vec<NormalizedPatch> = Vec::new();
    let mut i: usize = 0;
    while i < specs.len()
        invariant
            i <= specs@.len(),
            sv == stdin_view(*stdin_value),
            out@.len() == i as int,
            forall|j: int|
                0 <= j < i ==> #[trigger] parsed_patch(specs@[j]@, sv) is Ok && out@[j]@
                    == parsed_patch(specs@[j]@, sv)->Ok_0,
        decreases specs@.len() - i,
    {
        match parse_patch(&specs[i], stdin_value) {
            Ok(p) => {
                out.push(p);
            },
            Err(e) => {
                return Err(e);
            },
        }
        i += 1;
    }
    Ok(out)
}

} // verus!
