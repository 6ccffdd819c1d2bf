//! The JSON-path mini-language: a `$`-rooted sequence of `.key` and
//! `[index]` segments, with lazy resolution against a JSON value.
//!
//! The grammar is deliberately small: no quoted keys, no wildcards, no
//! slices. Parsing rejects malformed paths with a distinct diagnostic for
//! each failure; resolution never fails — a missing key or an out-of-range
//! index yields `None`.

use vstd::prelude::*;

use crate::json::{spec_get_index, spec_get_key, JsonSpec, JsonValue};
use crate::text::{chars_to_string, copy_range, parse_uint, parse_uint_chars, to_chars};

verus! {

/// One step of a JSON path: an object key or an array index.
#[derive(Debug)]
pub enum JsonPathSegment {
    /// `.key`: look a key up in an object.
    Key(String),
    /// `[i]`: index into an array.
    Index(usize),
}

/// The mathematical shape of a path segment.
pub enum JsonPathSegSpec {
    Key(Seq<char>),
    Index(int),
}

impl View for JsonPathSegment {
    type V = JsonPathSegSpec;

    open spec fn view(&self) -> JsonPathSegSpec {
        match self {
            JsonPathSegment::Key(k) => JsonPathSegSpec::Key(k@),
            JsonPathSegment::Index(i) => JsonPathSegSpec::Index(*i as int),
        }
    }
}

/// The ways a path can fail to parse.
pub enum PathError {
    /// The path does not start with `$`.
    NotDollar,
    /// A `.` is followed immediately by `.`, `[`, or the end.
    EmptyKey,
    /// A `[` with no matching `]`.
    UnclosedBracket,
    /// The text between `[` and `]` is not an index, carried verbatim.
    BadIndex(Seq<char>),
    /// A segment starts with neither `.` nor `[`.
    UnexpectedChar(char),
}

/// The diagnostic text reported for each parse failure.
pub open spec fn path_error_text(e: PathError) -> Seq<char> {
    match e {
        PathError::NotDollar => "path must start with '$'"@,
        PathError::EmptyKey => "empty object key in path"@,
        PathError::UnclosedBracket => "unclosed array index bracket"@,
        PathError::BadIndex(text) => "invalid array index '"@ + text + "'"@,
        PathError::UnexpectedChar(c) => "unexpected character '"@ + seq![c] + "' in path"@,
    }
}

/// Length of the key run at the head of `s`: characters up to the first
/// `.` or `[`, or the end.
pub open spec fn key_run_len(s: Seq<char>) -> int
    decreases s.len(),
{
    if s.len() == 0 {
        0
    } else if s[0] == '.' || s[0] == '[' {
        0
    } else {
        1 + key_run_len(s.drop_first())
    }
}

/// Length of the run at the head of `s` up to the first `]`, or the end of
/// the sequence if there is no `]`.
pub open spec fn bracket_run_len(s: Seq<char>) -> int
    decreases s.len(),
{
    if s.len() == 0 {
        0
    } else if s[0] == ']' {
        0
    } else {
        1 + bracket_run_len(s.drop_first())
    }
}

/// Parses the segment list after the leading `$`.
pub open spec fn parse_segments(s: Seq<char>) -> Result<Seq<JsonPathSegSpec>, PathError>
    decreases s.len(),
    via parse_segments_decreases
{
    if s.len() == 0 {
        Ok(Seq::empty())
    } else if s[0] == '.' {
        let rest = s.drop_first();
        let klen = key_run_len(rest);
        if klen == 0 {
            Err(PathError::EmptyKey)
        } else {
            match parse_segments(rest.skip(klen)) {
                Ok(segs) => Ok(seq![JsonPathSegSpec::Key(rest.take(klen))] + segs),
                Err(e) => Err(e),
            }
        }
    } else if s[0] == '[' {
        let rest = s.drop_first();
        let blen = bracket_run_len(rest);
        if blen == rest.len() {
            Err(PathError::UnclosedBracket)
        } else {
            let text = rest.take(blen);
            match parse_uint(text) {
                Some(v) => match parse_segments(rest.skip(blen + 1)) {
                    Ok(segs) => Ok(seq![JsonPathSegSpec::Index(v)] + segs),
                    Err(e) => Err(e),
                },
                None => Err(PathError::BadIndex(text)),
            }
        }
    } else {
        Err(PathError::UnexpectedChar(s[0]))
    }
}

/// Parses a whole path: `$`, then segments.
pub open spec fn spec_parse_path(s: Seq<char>) -> Result<Seq<JsonPathSegSpec>, PathError> {
    if s.len() == 0 || s[0] != '$' {
        Err(PathError::NotDollar)
    } else {
        parse_segments(s.drop_first())
    }
}

/// One resolution step: key lookup or array indexing, `None` when the value
/// has no such member.
pub open spec fn spec_resolve_one(v: JsonSpec, seg: JsonPathSegSpec) -> Option<JsonSpec> {
    match seg {
        JsonPathSegSpec::Key(k) => spec_get_key(v, k),
        JsonPathSegSpec::Index(i) => spec_get_index(v, i),
    }
}

/// Resolves a segment list against a value, lazily: the first missing
/// member yields `None` for the whole path.
pub open spec fn spec_resolve(v: JsonSpec, segs: Seq<JsonPathSegSpec>) -> Option<JsonSpec>
    decreases segs.len(),
{
    if segs.len() == 0 {
        Some(v)
    } else {
        match spec_resolve_one(v, segs[0]) {
            Some(next) => spec_resolve(next, segs.drop_first()),
            None => None,
        }
    }
}

#[via_fn]
proof fn parse_segments_decreases(s: Seq<char>) {
    if s.len() > 0 {
        lemma_key_run(s.drop_first());
        lemma_bracket_run(s.drop_first());
    }
}

proof fn lemma_key_run(s: Seq<char>)
    ensures
        0 <= key_run_len(s) <= s.len(),
        forall|j: int| 0 <= j < key_run_len(s) ==> #[trigger] s[j] != '.' && s[j] != '[',
        key_run_len(s) < s.len() ==> (s[key_run_len(s)] == '.' || s[key_run_len(s)] == '['),
    decreases s.len(),
{
    if s.len() > 0 && !(s[0] == '.' || s[0] == '[') {
        let t = s.drop_first();
        lemma_key_run(t);
        assert forall|j: int| 0 <= j < key_run_len(s) implies #[trigger] s[j] != '.' && s[j]
            != '[' by {
            if j > 0 {
                assert(t[j - 1] == s[j]);
            }
        }
    }
}

proof fn lemma_bracket_run(s: Seq<char>)
    ensures
        0 <= bracket_run_len(s) <= s.len(),
        forall|j: int| 0 <= j < bracket_run_len(s) ==> #[trigger] s[j] != ']',
        bracket_run_len(s) < s.len() ==> s[bracket_run_len(s)] == ']',
    decreases s.len(),
{
    if s.len() > 0 && s[0] != ']' {
        let t = s.drop_first();
        lemma_bracket_run(t);
        assert forall|j: int| 0 <= j < bracket_run_len(s) implies #[trigger] s[j] != ']' by {
            if j > 0 {
                assert(t[j - 1] == s[j]);
            }
        }
    }
}

/// The mathematical shape of a parsed segment list.
pub open spec fn path_view(segs: Seq<JsonPathSegment>) -> Seq<JsonPathSegSpec> {
    segs.map_values(|x: JsonPathSegment| x@)
}

/// Parses a path expression into its segments, or reports why it is
/// malformed, with one diagnostic per failure shape.
pub fn parse_json_path(path: &str) -> (r: Result<Vec<JsonPathSegment>, String>)
    ensures
        match r {
            Ok(segs) => spec_parse_path(path@) == Ok::<Seq<JsonPathSegSpec>, PathError>(
                path_view(segs@),
            ),
            Err(m) => spec_parse_path(path@) matches Err(e) && m@ == path_error_text(e),
        },
{
    let chars = to_chars(path);
    let n = chars.len();
    if n == 0 || chars[0] != '$' {
        return Err(String::from_str("path must start with '$'"));
    }
    let mut segs: Vec<JsonPathSegment> = Vec::new();
    let mut i: usize = 1;
    proof {
        assert(chars@.skip(1) =~= chars@.drop_first());
        assert(path_view(segs@) =~= Seq::<JsonPathSegSpec>::empty());
    }
    while i < n
        invariant
            1 <= i <= n,
            n == chars@.len(),
            chars@ == path@,
            chars@[0] == '$',
            spec_parse_path(path@) == (match parse_segments(chars@.skip(i as int)) {
                Ok(rest) => Ok::<Seq<JsonPathSegSpec>, PathError>(path_view(segs@) + rest),
                Err(e) => Err::<Seq<JsonPathSegSpec>, PathError>(e),
            }),
        decreases n - i,
    {
        let ghost rem = chars@.skip(i as int);
        let ghost tail = rem.drop_first();
        proof {
            assert(rem[0] == chars@[i as int]);
            assert(tail =~= chars@.skip(i + 1));
        }
        let c = chars[i];
        if c == '.' {
            let mut j: usize = i + 1;
            while j < n && chars[j] != '.' && chars[j] != '['
                invariant
                    i + 1 <= j <= n,
                    n == chars@.len(),
                    forall|k: int|
                        i + 1 <= k < j ==> #[trigger] chars@[k] != '.' && chars@[k] != '[',
                decreases n - j,
            {
                j += 1;
            }
            let klen = j - (i + 1);
            proof {
                lemma_key_run(tail);
                assert(forall|k: int|
                    0 <= k < tail.len() ==> #[trigger] tail[k] == chars@[k + i + 1]);
                if key_run_len(tail) < klen {
                    assert(chars@[key_run_len(tail) + i + 1] == '.' || chars@[key_run_len(tail)
                        + i + 1] == '[');
                    assert(false);
                }
                if key_run_len(tail) > klen {
                    assert(j < n);
                    assert(tail[klen as int] != '.' && tail[klen as int] != '[');
                    assert(false);
                }
                assert(key_run_len(tail) == klen);
            }
            if klen == 0 {
                return Err(String::from_str("empty object key in path"));
            }
            let key_chars = copy_range(&chars, i + 1, j);
            let key = chars_to_string(&key_chars);
            proof {
                assert(tail.take(klen as int) =~= chars@.subrange(i + 1, j as int));
                assert(tail.skip(klen as int) =~= chars@.skip(j as int));
            }
            let ghost old_segs = segs@;
            segs.push(JsonPathSegment::Key(key));
            proof {
                assert(path_view(segs@) =~= path_view(old_segs).push(
                    JsonPathSegSpec::Key(key@),
                ));
                assert forall|rest2: Seq<JsonPathSegSpec>|
                    true implies path_view(old_segs) + (seq![
                    JsonPathSegSpec::Key(key@)] + rest2) =~= path_view(segs@) + rest2 by {}
            }
            i = j;
        } else if c == '[' {
            let mut j: usize = i + 1;
            while j < n && chars[j] != ']'
                invariant
                    i + 1 <= j <= n,
                    n == chars@.len(),
                    forall|k: int| i + 1 <= k < j ==> #[trigger] chars@[k] != ']',
                decreases n - j,
            {
                j += 1;
            }
            proof {
                lemma_bracket_run(tail);
                assert(forall|k: int|
                    0 <= k < tail.len() ==> #[trigger] tail[k] == chars@[k + i + 1]);
                if bracket_run_len(tail) < j - (i + 1) {
                    assert(chars@[bracket_run_len(tail) + i + 1] == ']');
                    assert(false);
                }
                if bracket_run_len(tail) > j - (i + 1) {
                    assert(j < n);
                    assert(tail[j - (i + 1)] != ']');
                    assert(false);
                }
                assert(bracket_run_len(tail) == j - (i + 1));
            }
            if j == n {
                return Err(String::from_str("unclosed array index bracket"));
            }
            let text_chars = copy_range(&chars, i + 1, j);
            proof {
                assert(tail.take(j - (i + 1)) =~= chars@.subrange(i + 1, j as int));
            }
            match parse_uint_chars(&text_chars) {
                Some(v) => {
                    proof {
                        assert(tail.skip(j - (i + 1) + 1) =~= chars@.skip(j + 1));
                    }
                    let ghost old_segs = segs@;
                    segs.push(JsonPathSegment::Index(v));
                    proof {
                        assert(path_view(segs@) =~= path_view(old_segs).push(
                            JsonPathSegSpec::Index(v as int),
                        ));
                        assert forall|rest2: Seq<JsonPathSegSpec>|
                            true implies path_view(old_segs) + (seq![
                        JsonPathSegSpec::Index(v as int)] + rest2) =~= path_view(segs@)
                            + rest2 by {}
                    }
                    i = j + 1;
                },
                None => {
                    let mut m = String::from_str("invalid array index '");
                    let text = chars_to_string(&text_chars);
                    m.append(text.as_str());
                    m.append("'");
                    return Err(m);
                },
            }
        } else {
            let mut m = String::from_str("unexpected character '");
            let cs = crate::text::char_to_string(c);
            m.append(cs.as_str());
            m.append("' in path");
            return Err(m);
        }
    }
    proof {
        assert(chars@.skip(i as int) =~= Seq::<char>::empty());
        assert(path_view(segs@) + Seq::<JsonPathSegSpec>::empty() =~= path_view(segs@));
    }
    Ok(segs)
}

/// Resolves a path against a JSON value: parse errors are reported, while
/// missing members resolve to `Ok(None)`.
pub fn resolve_json_path<'a>(json: &'a JsonValue, path: &str) -> (r: Result<
    Option<&'a JsonValue>,
    String,
>)
    ensures
        match r {
            Ok(opt) => spec_parse_path(path@) matches Ok(segs) && (match opt {
                Some(v) => spec_resolve(json@, segs) == Some(v@),
                None => spec_resolve(json@, segs) is None,
            }),
            Err(m) => spec_parse_path(path@) matches Err(e) && m@ == path_error_text(e),
        },
{
    let segs = match parse_json_path(path) {
        Ok(segs) => segs,
        Err(m) => {
            return Err(m);
        },
    };
    let ghost full = path_view(segs@);
    let mut cur: &JsonValue = json;
    let mut i: usize = 0;
    proof {
        assert(full.skip(0) =~= full);
    }
    while i < segs.len()
        invariant
            i <= segs@.len(),
            full == path_view(segs@),
            spec_parse_path(path@) == Ok::<Seq<JsonPathSegSpec>, PathError>(full),
            spec_resolve(json@, full) == spec_resolve(cur@, full.skip(i as int)),
        decreases segs@.len() - i,
    {
        proof {
            assert(full.skip(i as int)[0] == full[i as int]);
            assert(full[i as int] == segs@[i as int]@);
            assert(full.skip(i as int).drop_first() =~= full.skip(i + 1));
        }
        let step = match &segs[i] {
            JsonPathSegment::Key(k) => cur.get_key(k),
            JsonPathSegment::Index(idx) => cur.get_index(*idx),
        };
        match step {
            Some(next) => {
                cur = next;
            },
            None => {
                return Ok(None);
            },
        }
        i += 1;
    }
    proof {
        assert(full.skip(i as int) =~= Seq::<JsonPathSegSpec>::empty());
    }
    Ok(Some(cur))
}

/// Resolution is structural lookup, one segment at a time: resolving a path
/// extended by one segment looks that segment up in the path's own result,
/// and an absent member anywhere yields `None` rather than an error.
pub proof fn lemma_resolve_is_structural_lookup(
    v: JsonSpec,
    segs: Seq<JsonPathSegSpec>,
    seg: JsonPathSegSpec,
)
    ensures
        spec_resolve(v, segs.push(seg)) == (match spec_resolve(v, segs) {
            Some(u) => spec_resolve_one(u, seg),
            None => None::<JsonSpec>,
        }),
    decreases segs.len(),
{
    let p = segs.push(seg);
    if segs.len() == 0 {
        assert(p[0] == seg);
        assert(p.drop_first() =~= Seq::<JsonPathSegSpec>::empty());
        assert(spec_resolve(v, segs) == Some(v));
        match spec_resolve_one(v, seg) {
            Some(u) => {
                assert(spec_resolve(v, p) == spec_resolve(u, p.drop_first()));
                assert(spec_resolve(u, Seq::<JsonPathSegSpec>::empty()) == Some(u));
            },
            None => {
                assert(spec_resolve(v, p) is None);
            },
        }
    } else {
        assert(p[0] == segs[0]);
        assert(p.drop_first() =~= segs.drop_first().push(seg));
        match spec_resolve_one(v, segs[0]) {
            Some(next) => {
                lemma_resolve_is_structural_lookup(next, segs.drop_first(), seg);
                assert(spec_resolve(v, p) == spec_resolve(next, segs.drop_first().push(seg)));
                assert(spec_resolve(v, segs) == spec_resolve(next, segs.drop_first()));
            },
            None => {
                assert(spec_resolve(v, p) is None);
                assert(spec_resolve(v, segs) is None);
            },
        }
    }
}

} // verus!
