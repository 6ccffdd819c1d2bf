//! The assertion language applied to resolved JSON values: `exists`,
//! `equals <json-or-text>`, `contains <substring>`, and `len >=|==|> N`.
//!
//! An absent value makes every assertion false rather than an error; only a
//! malformed assertion expression is reported as one.

use vstd::prelude::*;

use crate::json::{
    json_eq, json_string, json_text, parse_json, parsed_json, spec_json_len, JsonSpec,
    JsonValue,
};
use crate::text::{
    all_digits, chars_to_string, contains_chars, contains_seq, copy_range, dec_str, dec_string,
    digits_val, first_non_space, has_prefix, matches_here, parse_uint_chars, to_chars,
    trim_chars, trim_seq,
};

verus! {

/// The comparison of a `len` assertion.
#[derive(Clone, Copy, PartialEq, Eq, Structural, Debug)]
pub enum LenOp {
    /// `len >= N`
    AtLeast,
    /// `len == N`
    Exactly,
    /// `len > N`
    MoreThan,
}

/// A parsed assertion expression.
#[derive(Debug)]
pub enum JsonAssertion {
    /// The value is present and not `null`.
    Exists,
    /// The value equals the given one structurally.
    Equals(JsonValue),
    /// The value is a string containing the given substring.
    Contains(String),
    /// The value is an array or object whose size compares as given.
    Len(LenOp, usize),
}

/// The mathematical shape of an assertion.
pub enum JsonAssertionSpec {
    Exists,
    Equals(JsonSpec),
    Contains(Seq<char>),
    Len(LenOp, int),
}

impl View for JsonAssertion {
    type V = JsonAssertionSpec;

    open spec fn view(&self) -> JsonAssertionSpec {
        match self {
            JsonAssertion::Exists => JsonAssertionSpec::Exists,
            JsonAssertion::Equals(v) => JsonAssertionSpec::Equals(v@),
            JsonAssertion::Contains(s) => JsonAssertionSpec::Contains(s@),
            JsonAssertion::Len(op, n) => JsonAssertionSpec::Len(*op, *n as int),
        }
    }
}

/// Why an assertion expression failed to parse.
pub enum AssertionError {
    /// None of the four recognized forms.
    Unrecognized,
    /// A `len` form whose count does not fit in `usize`.
    BadLength,
}

/// The diagnostic reported for a malformed assertion.
pub open spec fn assertion_error_text(e: AssertionError) -> Seq<char> {
    match e {
        AssertionError::Unrecognized => "assertion must be one of: exists, equals <value>, contains <substring>, len >= N, len == N, len > N"@,
        AssertionError::BadLength => "length must be a non-negative integer"@,
    }
}

/// The rendering of a length comparison operator.
pub open spec fn len_op_text(op: LenOp) -> Seq<char> {
    match op {
        LenOp::AtLeast => ">="@,
        LenOp::Exactly => "=="@,
        LenOp::MoreThan => ">"@,
    }
}

/// Whether `actual` compares to `wanted` under `op`.
pub open spec fn len_cmp(op: LenOp, actual: int, wanted: int) -> bool {
    match op {
        LenOp::AtLeast => actual >= wanted,
        LenOp::Exactly => actual == wanted,
        LenOp::MoreThan => actual > wanted,
    }
}

/// Parses the trimmed text of a `len` assertion: `len`, optional spaces,
/// one of `>=`, `==`, `>`, optional spaces, then digits to the end.
/// Yields the operator and the digit run, or `None` when the shape is not
/// matched.
pub open spec fn spec_parse_len(t: Seq<char>) -> Option<(LenOp, Seq<char>)> {
    if !has_prefix(t, "len"@) {
        None
    } else {
        let r1 = t.skip(3);
        let r2 = r1.skip(first_non_space(r1));
        if has_prefix(r2, ">="@) {
            spec_len_digits(r2.skip(2), LenOp::AtLeast)
        } else if has_prefix(r2, "=="@) {
            spec_len_digits(r2.skip(2), LenOp::Exactly)
        } else if has_prefix(r2, ">"@) {
            spec_len_digits(r2.skip(1), LenOp::MoreThan)
        } else {
            None
        }
    }
}

/// The digit run that must close a `len` assertion: optional spaces, then
/// at least one digit, and nothing after.
pub open spec fn spec_len_digits(r: Seq<char>, op: LenOp) -> Option<(LenOp, Seq<char>)> {
    let d = r.skip(first_non_space(r));
    if d.len() > 0 && all_digits(d) {
        Some((op, d))
    } else {
        None
    }
}

/// Parses an assertion expression, trimmed of surrounding whitespace: the
/// four recognized forms, tried in order.
pub open spec fn spec_parse_assertion(s: Seq<char>) -> Result<JsonAssertionSpec, AssertionError> {
    let t = trim_seq(s);
    if t == "exists"@ {
        Ok(JsonAssertionSpec::Exists)
    } else if has_prefix(t, "equals "@) {
        let rest = t.skip(7);
        Ok(
            JsonAssertionSpec::Equals(
                match parsed_json(rest) {
                    Ok(v) => v,
                    Err(_) => JsonSpec::Str(rest),
                },
            ),
        )
    } else if has_prefix(t, "contains "@) {
        Ok(JsonAssertionSpec::Contains(t.skip(9)))
    } else {
        match spec_parse_len(t) {
            Some((op, digits)) => if digits_val(digits) <= usize::MAX {
                Ok(JsonAssertionSpec::Len(op, digits_val(digits)))
            } else {
                Err(AssertionError::BadLength)
            },
            None => Err(AssertionError::Unrecognized),
        }
    }
}

/// The verdict and detail of applying an assertion to an optional value.
/// Absence fails every form (and is what `exists` tests); `contains` on a
/// non-string and `len` on a non-container fail with a fixed detail.
pub open spec fn spec_apply_assertion(value: Option<JsonSpec>, a: JsonAssertionSpec) -> (
    bool,
    Seq<char>,
) {
    match a {
        JsonAssertionSpec::Exists => (
            (value matches Some(v) && !(v is Null)),
            "value exists and is not null"@,
        ),
        JsonAssertionSpec::Equals(expected) => (match value {
            None => (false, "path not found"@),
            Some(actual) => (
                actual == expected,
                "actual="@ + json_text(actual) + ", expected="@ + json_text(expected),
            ),
        }),
        JsonAssertionSpec::Contains(needle) => (match value {
            None => (false, "path not found"@),
            Some(actual) => (match actual {
                JsonSpec::Str(text) => (
                    contains_seq(text, needle),
                    "substring='"@ + needle + "'"@,
                ),
                _ => (false, "value is not a string"@),
            }),
        }),
        JsonAssertionSpec::Len(op, wanted) => (match value {
            None => (false, "path not found"@),
            Some(actual) => (match spec_json_len(actual) {
                Some(l) => (
                    len_cmp(op, l as int, wanted),
                    "actual_len="@ + dec_str(l) + " "@ + len_op_text(op) + " "@ + dec_str(
                        wanted as nat,
                    ),
                ),
                None => (false, "value is not an array or object"@),
            }),
        }),
    }
}

/// The value on the `Some` side of an optional borrowed JSON value.
pub open spec fn opt_value_view(value: Option<&JsonValue>) -> Option<JsonSpec> {
    match value {
        Some(v) => Some(v@),
        None => None,
    }
}

/// Parses an assertion expression into its recognized form, or reports why
/// it is malformed.
pub fn parse_assertion(assertion: &str) -> (r: Result<JsonAssertion, String>)
    ensures
        match r {
            Ok(a) => spec_parse_assertion(assertion@) == Ok::<JsonAssertionSpec, AssertionError>(
                a@,
            ),
            Err(m) => spec_parse_assertion(assertion@) matches Err(e) && m@
                == assertion_error_text(e),
        },
{
    let chars = to_chars(assertion);
    let trimmed = trim_chars(&chars);
    let ghost t = trim_seq(assertion@);
    let n = trimmed.len();
    let exists_p = to_chars("exists");
    if n == exists_p.len() && matches_here(&trimmed, &exists_p, 0) {
        proof {
            assert(t.subrange(0, t.len() as int) =~= t);
        }
        return Ok(JsonAssertion::Exists);
    }
    proof {
        if t == "exists"@ {
            assert(t.subrange(0, t.len() as int) =~= t);
            assert(crate::text::matches_at(t, exists_p@, 0));
        }
    }
    let equals_p = to_chars("equals ");
    if crate::text::starts_with_chars(&trimmed, &equals_p) {
        proof {
            reveal_strlit("equals ");
        }
        let rest_chars = copy_range(&trimmed, 7, n);
        proof {
            assert(rest_chars@ =~= t.skip(7));
        }
        let rest = chars_to_string(&rest_chars);
        return match parse_json(rest.as_str()) {
            Ok(v) => Ok(JsonAssertion::Equals(v)),
            Err(_) => Ok(JsonAssertion::Equals(JsonValue::Str(rest))),
        };
    }
    let contains_p = to_chars("contains ");
    if crate::text::starts_with_chars(&trimmed, &contains_p) {
        proof {
            reveal_strlit("contains ");
        }
        let rest_chars = copy_range(&trimmed, 9, n);
        proof {
            assert(rest_chars@ =~= t.skip(9));
        }
        return Ok(JsonAssertion::Contains(chars_to_string(&rest_chars)));
    }
    let len_p = to_chars("len");
    if crate::text::starts_with_chars(&trimmed, &len_p) {
        proof {
            reveal_strlit("len");
        }
        let r1 = copy_range(&trimmed, 3, n);
        proof {
            assert(r1@ =~= t.skip(3));
        }
        let sp1 = crate::text::skip_spaces(&r1, 0);
        proof {
            assert(r1@.skip(0) =~= r1@);
        }
        let r2 = copy_range(&r1, sp1, r1.len());
        proof {
            assert(r2@ =~= r1@.skip(first_non_space(r1@)));
        }
        let ge_p = to_chars(">=");
        let eq_p = to_chars("==");
        let gt_p = to_chars(">");
        let op: LenOp;
        let oplen: usize;
        if crate::text::starts_with_chars(&r2, &ge_p) {
            op = LenOp::AtLeast;
            oplen = 2;
            proof {
                reveal_strlit(">=");
            }
        } else if crate::text::starts_with_chars(&r2, &eq_p) {
            op = LenOp::Exactly;
            oplen = 2;
            proof {
                reveal_strlit("==");
            }
        } else if crate::text::starts_with_chars(&r2, &gt_p) {
            op = LenOp::MoreThan;
            oplen = 1;
            proof {
                reveal_strlit(">");
            }
        } else {
            return Err(
                String::from_str(
                    "assertion must be one of: exists, equals <value>, contains <substring>, len >= N, len == N, len > N",
                ),
            );
        }
        let r3 = copy_range(&r2, oplen, r2.len());
        proof {
            assert(r3@ =~= r2@.skip(oplen as int));
        }
        let sp2 = crate::text::skip_spaces(&r3, 0);
        proof {
            assert(r3@.skip(0) =~= r3@);
        }
        let d = copy_range(&r3, sp2, r3.len());
        proof {
            assert(d@ =~= r3@.skip(first_non_space(r3@)));
        }
        if d.len() == 0 {
            return Err(
                String::from_str(
                    "assertion must be one of: exists, equals <value>, contains <substring>, len >= N, len == N, len > N",
                ),
            );
        }
        if !crate::text::chars_all_digits(&d) {
            return Err(
                String::from_str(
                    "assertion must be one of: exists, equals <value>, contains <substring>, len >= N, len == N, len > N",
                ),
            );
        }
        proof {
            assert(crate::text::is_digit(d@[0]));
            assert(d@[0] != '+');
            crate::text::lemma_digits_val_nonneg(d@);
        }
        return match parse_uint_chars(&d) {
            Some(v) => Ok(JsonAssertion::Len(op, v)),
            None => Err(String::from_str("length must be a non-negative integer")),
        };
    }
    Err(
        String::from_str(
            "assertion must be one of: exists, equals <value>, contains <substring>, len >= N, len == N, len > N",
        ),
    )
}

/// Applies a parsed assertion to an optional resolved value, yielding the
/// verdict and a detail line.
pub fn apply_assertion(value: Option<&JsonValue>, a: &JsonAssertion) -> (r: (bool, String))
    ensures
        r.0 == spec_apply_assertion(opt_value_view(value), a@).0,
        r.1@ == spec_apply_assertion(opt_value_view(value), a@).1,
{
    match a {
        JsonAssertion::Exists => {
            let passed = match value {
                Some(v) => !v.is_null(),
                None => false,
            };
            (passed, String::from_str("value exists and is not null"))
        },
        JsonAssertion::Equals(expected) => {
            match value {
                Some(actual) => {
                    let passed = json_eq(actual, expected);
                    let mut m = String::from_str("actual=");
                    let actual_text = json_string(actual);
                    m.append(actual_text.as_str());
                    m.append(", expected=");
                    let expected_text = json_string(expected);
                    m.append(expected_text.as_str());
                    (passed, m)
                },
                None => (false, String::from_str("path not found")),
            }
        },
        JsonAssertion::Contains(needle) => {
            match value {
                Some(actual) => {
                    match actual.as_str() {
                        Some(text) => {
                            let text_chars = to_chars(text.as_str());
                            let needle_chars = to_chars(needle.as_str());
                            let passed = contains_chars(&text_chars, &needle_chars);
                            let mut m = String::from_str("substring='");
                            m.append(needle.as_str());
                            m.append("'");
                            (passed, m)
                        },
                        None => (false, String::from_str("value is not a string")),
                    }
                },
                None => (false, String::from_str("path not found")),
            }
        },
        JsonAssertion::Len(op, wanted) => {
            match value {
                Some(actual) => {
                    match actual.json_len() {
                        Some(l) => {
                            let passed = match op {
                                LenOp::AtLeast => l >= *wanted,
                                LenOp::Exactly => l == *wanted,
                                LenOp::MoreThan => l > *wanted,
                            };
                            let mut m = String::from_str("actual_len=");
                            let l_text = dec_string(l as u64);
                            m.append(l_text.as_str());
                            m.append(" ");
                            match op {
                                LenOp::AtLeast => m.append(">="),
                                LenOp::Exactly => m.append("=="),
                                LenOp::MoreThan => m.append(">"),
                            }
                            m.append(" ");
                            let w_text = dec_string(*wanted as u64);
                            m.append(w_text.as_str());
                            (passed, m)
                        },
                        None => (false, String::from_str("value is not an array or object")),
                    }
                },
                None => (false, String::from_str("path not found")),
            }
        },
    }
}

/// Parses and applies an assertion in one step, as a gate does: the parse
/// error, or the verdict with its detail.
pub fn evaluate_json_assertion(value: Option<&JsonValue>, assertion: &str) -> (r: Result<
    (bool, String),
    String,
>)
    ensures
        match r {
            Ok(res) => spec_parse_assertion(assertion@) matches Ok(a) && res.0
                == spec_apply_assertion(opt_value_view(value), a).0 && res.1@
                == spec_apply_assertion(opt_value_view(value), a).1,
            Err(m) => spec_parse_assertion(assertion@) matches Err(e) && m@
                == assertion_error_text(e),
        },
{
    match parse_assertion(assertion) {
        Ok(a) => Ok(apply_assertion(value, &a)),
        Err(m) => Err(m),
    }
}

} // verus!
