//! Trusted access to the `regex` crate. Pattern compilation, matching, and
//! capture extraction are functions of the pattern and the text alone, so
//! their results are named by uninterpreted functions; every contract in
//! the crate that mentions a regular expression speaks through these names.

use vstd::prelude::*;

verus! {

#[verifier::external_type_specification]
#[verifier::external_body]
pub struct ExRegex(regex::Regex);

/// The pattern a compiled regex was built from (`Regex::as_str` hands it
/// back verbatim).
pub uninterp spec fn regex_pattern(re: regex::Regex) -> Seq<char>;

/// What `regex::Regex::new` makes of a pattern: `None` when it compiles,
/// the diagnostic text otherwise.
pub uninterp spec fn regex_compile_error(pattern: Seq<char>) -> Option<Seq<char>>;

/// Whether the pattern matches anywhere in the text.
pub uninterp spec fn regex_matches(pattern: Seq<char>, text: Seq<char>) -> bool;

/// The first match's capture groups one and two: `None` when the pattern
/// does not match at all, otherwise each group's text where the group
/// participated in the match.
pub uninterp spec fn regex_captures_pair(pattern: Seq<char>, text: Seq<char>) -> Option<
    (Option<Seq<char>>, Option<Seq<char>>),
>;

/// The pattern text that matches a string literally: every metacharacter
/// escaped.
pub uninterp spec fn regex_escaped(s: Seq<char>) -> Seq<char>;

/// Relies on `regex::Regex::new`: whether a pattern compiles, and the
/// diagnostic otherwise, depend on the pattern alone; a compiled regex
/// carries its pattern.
#[verifier::external_body]
pub(crate) fn regex_new(pattern: &str) -> (r: Result<regex::Regex, String>)
    ensures
        match r {
            Ok(re) => regex_compile_error(pattern@) is None && regex_pattern(re) == pattern@,
            Err(m) => regex_compile_error(pattern@) matches Some(t) && m@ == t,
        },
{
    match regex::Regex::new(pattern) {
        Ok(re) => Ok(re),
        Err(e) => Err(format!("{}", e)),
    }
}

/// Relies on `regex::Regex::is_match`: the verdict depends on the pattern
/// and the text alone.
#[verifier::external_body]
pub(crate) fn regex_is_match(re: &regex::Regex, text: &str) -> (r: bool)
    ensures
        r == regex_matches(regex_pattern(*re), text@),
{
    re.is_match(text)
}

/// Relies on `regex::Regex::captures`: the first match's groups depend on
/// the pattern and the text alone, and captures succeed exactly when the
/// pattern matches.
#[verifier::external_body]
pub(crate) fn regex_captures_two(re: &regex::Regex, text: &str) -> (r: Option<
    (Option<String>, Option<String>),
>)
    ensures
        r is Some == regex_matches(regex_pattern(*re), text@),
        r.deep_view() == regex_captures_pair(regex_pattern(*re), text@),
{
    re.captures(text).map(|caps| {
        (
            caps.get(1).map(|m| m.as_str().to_string()),
            caps.get(2).map(|m| m.as_str().to_string()),
        )
    })
}

/// Relies on `regex::escape`: the escaped pattern depends on the input
/// alone.
#[verifier::external_body]
pub(crate) fn regex_escape(s: &str) -> (r: String)
    ensures
        r@ == regex_escaped(s@),
{
    regex::escape(s)
}

} // verus!
