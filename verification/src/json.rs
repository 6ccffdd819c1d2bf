//! The JSON document model that gate assertions are evaluated against.
//!
//! Values are held in a sum type of the crate's own; parsing is delegated to
//! the `serde_json` crate through a trusted wrapper whose result is named by
//! an uninterpreted function, so everything downstream of parsing is
//! verified.

use vstd::prelude::*;

use serde_json::Value;

verus! {

/// A JSON number as `serde_json` represents it: non-negative integers,
/// negative integers, and floating-point numbers. A float is kept as its
/// shortest round-trip rendering, which identifies the underlying value, so
/// text equality on that rendering coincides with float equality. Numbers
/// compare equal only within the same variant, mirroring `serde_json`'s
/// number equality (which never equates an integer with a float).
#[derive(Debug)]
pub enum JsonNum {
    /// A non-negative integer.
    PosInt(u64),
    /// A negative integer.
    NegInt(i64),
    /// A float, stored as its decimal rendering.
    Float(String),
}

/// The mathematical shape of a JSON number.
pub enum JsonNumSpec {
    PosInt(u64),
    NegInt(i64),
    Float(Seq<char>),
}

impl View for JsonNum {
    type V = JsonNumSpec;

    open spec fn view(&self) -> JsonNumSpec {
        match self {
            JsonNum::PosInt(u) => JsonNumSpec::PosInt(*u),
            JsonNum::NegInt(i) => JsonNumSpec::NegInt(*i),
            JsonNum::Float(s) => JsonNumSpec::Float(s@),
        }
    }
}

/// A JSON value: the library's own model of a parsed document.
#[derive(Debug)]
pub enum JsonValue {
    Null,
    Bool(bool),
    Num(JsonNum),
    Str(String),
    Array(Vec<JsonValue>),
    Object(Vec<(String, JsonValue)>),
}

/// The mathematical shape of a JSON value, used in specifications.
pub enum JsonSpec {
    Null,
    Bool(bool),
    Num(JsonNumSpec),
    Str(Seq<char>),
    Array(Seq<JsonSpec>),
    Object(Seq<(Seq<char>, JsonSpec)>),
}

/// The mathematical value of a `JsonValue`.
pub open spec fn json_view(v: JsonValue) -> JsonSpec
    decreases v,
{
    match v {
        JsonValue::Null => JsonSpec::Null,
        JsonValue::Bool(b) => JsonSpec::Bool(b),
        JsonValue::Num(n) => JsonSpec::Num(n@),
        JsonValue::Str(s) => JsonSpec::Str(s@),
        JsonValue::Array(items) => JsonSpec::Array(json_view_seq(items@)),
        JsonValue::Object(entries) => JsonSpec::Object(json_view_entries(entries@)),
    }
}

/// The mathematical values of a sequence of JSON values, element by element.
pub open spec fn json_view_seq(s: Seq<JsonValue>) -> Seq<JsonSpec>
    decreases s,
{
    if s.len() == 0 {
        Seq::empty()
    } else {
        json_view_seq(s.drop_last()).push(json_view(s.last()))
    }
}

/// The mathematical values of a sequence of object entries.
pub open spec fn json_view_entries(s: Seq<(String, JsonValue)>) -> Seq<(Seq<char>, JsonSpec)>
    decreases s,
{
    if s.len() == 0 {
        Seq::empty()
    } else {
        json_view_entries(s.drop_last()).push((s.last().0@, json_view(s.last().1)))
    }
}

impl View for JsonValue {
    type V = JsonSpec;

    open spec fn view(&self) -> JsonSpec {
        json_view(*self)
    }
}

/// Equality of two strings, decided on their character sequences.
pub fn string_eq(a: &String, b: &String) -> (r: bool)
    ensures
        r == (a@ == b@),
{
    a.eq(b)
}

/// Looks a key up among object entries: the first entry with that key wins.
pub open spec fn lookup_entries(entries: Seq<(Seq<char>, JsonSpec)>, key: Seq<char>) -> Option<
    JsonSpec,
>
    decreases entries.len(),
{
    if entries.len() == 0 {
        None
    } else if entries[0].0 == key {
        Some(entries[0].1)
    } else {
        lookup_entries(entries.drop_first(), key)
    }
}

/// Key lookup on a JSON value: `None` when the value is not an object or the
/// key is absent.
pub open spec fn spec_get_key(v: JsonSpec, key: Seq<char>) -> Option<JsonSpec> {
    match v {
        JsonSpec::Object(entries) => lookup_entries(entries, key),
        _ => None,
    }
}

/// Index lookup on a JSON value: `None` when the value is not an array or
/// the index is out of range.
pub open spec fn spec_get_index(v: JsonSpec, i: int) -> Option<JsonSpec> {
    match v {
        JsonSpec::Array(items) => if 0 <= i < items.len() {
            Some(items[i])
        } else {
            None
        },
        _ => None,
    }
}

/// The element count of an array or the entry count of an object; `None`
/// for every other value.
pub open spec fn spec_json_len(v: JsonSpec) -> Option<nat> {
    match v {
        JsonSpec::Array(items) => Some(items.len()),
        JsonSpec::Object(entries) => Some(entries.len()),
        _ => None,
    }
}

proof fn lemma_lookup_found(entries: Seq<(Seq<char>, JsonSpec)>, key: Seq<char>, i: int)
    requires
        0 <= i < entries.len(),
        entries[i].0 == key,
        forall|k: int| 0 <= k < i ==> (#[trigger] entries[k]).0 != key,
    ensures
        lookup_entries(entries, key) == Some(entries[i].1),
    decreases i,
{
    if i > 0 {
        lemma_lookup_found(entries.drop_first(), key, i - 1);
    }
}

proof fn lemma_lookup_none(entries: Seq<(Seq<char>, JsonSpec)>, key: Seq<char>)
    requires
        forall|k: int| 0 <= k < entries.len() ==> (#[trigger] entries[k]).0 != key,
    ensures
        lookup_entries(entries, key) is None,
    decreases entries.len(),
{
    if entries.len() > 0 {
        lemma_lookup_none(entries.drop_first(), key);
    }
}

/// Element-wise characterization of `json_view_seq`.
pub broadcast proof fn lemma_json_view_seq(s: Seq<JsonValue>)
    ensures
        (#[trigger] json_view_seq(s)).len() == s.len(),
        forall|i: int| 0 <= i < s.len() ==> json_view_seq(s)[i] == json_view(#[trigger] s[i]),
    decreases s.len(),
{
    if s.len() > 0 {
        lemma_json_view_seq(s.drop_last());
        assert forall|i: int| 0 <= i < s.len() implies json_view_seq(s)[i] == json_view(
            #[trigger] s[i],
        ) by {
            if i < s.len() - 1 {
                assert(s.drop_last()[i] == s[i]);
            }
        }
    }
}

/// Element-wise characterization of `json_view_entries`.
pub broadcast proof fn lemma_json_view_entries(s: Seq<(String, JsonValue)>)
    ensures
        (#[trigger] json_view_entries(s)).len() == s.len(),
        forall|i: int|
            0 <= i < s.len() ==> json_view_entries(s)[i] == ((#[trigger] s[i]).0@, json_view(
                s[i].1,
            )),
    decreases s.len(),
{
    if s.len() > 0 {
        lemma_json_view_entries(s.drop_last());
        assert forall|i: int| 0 <= i < s.len() implies json_view_entries(s)[i] == ((
        #[trigger] s[i]).0@, json_view(s[i].1)) by {
            if i < s.len() - 1 {
                assert(s.drop_last()[i] == s[i]);
            }
        }
    }
}

impl JsonValue {
    /// The value is JSON `null`.
    pub fn is_null(&self) -> (r: bool)
        ensures
            r == (self@ is Null),
    {
        match self {
            JsonValue::Null => true,
            _ => false,
        }
    }

    /// The boolean payload, when the value is a JSON boolean.
    pub fn as_bool(&self) -> (r: Option<bool>)
        ensures
            match r {
                Some(b) => self@ == JsonSpec::Bool(b),
                None => !(self@ is Bool),
            },
    {
        match self {
            JsonValue::Bool(b) => Some(*b),
            _ => None,
        }
    }

    /// The string payload, when the value is a JSON string.
    pub fn as_str(&self) -> (r: Option<&String>)
        ensures
            match r {
                Some(s) => self@ == JsonSpec::Str(s@),
                None => !(self@ is Str),
            },
    {
        match self {
            JsonValue::Str(s) => Some(s),
            _ => None,
        }
    }

    /// Key lookup, as `serde_json::Value::get` behaves on objects: `None`
    /// when the value is not an object or has no such key.
    pub fn get_key<'a>(&'a self, key: &String) -> (r: Option<&'a JsonValue>)
        ensures
            match r {
                Some(v) => spec_get_key(self@, key@) == Some(v@),
                None => spec_get_key(self@, key@) is None,
            },
    {
        match self {
            JsonValue::Object(entries) => {
                proof {
                    lemma_json_view_entries(entries@);
                }
                let ghost view_entries = json_view_entries(entries@);
                let mut i: usize = 0;
                while i < entries.len()
                    invariant
                        i <= entries@.len(),
                        self@ == JsonSpec::Object(view_entries),
                        view_entries == json_view_entries(entries@),
                        view_entries.len() == entries@.len(),
                        forall|k: int|
                            0 <= k < entries@.len() ==> view_entries[k] == ((
                            #[trigger] entries@[k]).0@, json_view(entries@[k].1)),
                        forall|k: int| 0 <= k < i ==> (#[trigger] view_entries[k]).0 != key@,
                    decreases entries@.len() - i,
                {
                    if string_eq(&entries[i].0, key) {
                        proof {
                            lemma_lookup_found(view_entries, key@, i as int);
                        }
                        return Some(&entries[i].1);
                    }
                    i += 1;
                }
                proof {
                    lemma_lookup_none(view_entries, key@);
                }
                None
            },
            _ => None,
        }
    }

    /// Index lookup, as array indexing behaves: `None` when the value is not
    /// an array or the index is out of range.
    pub fn get_index<'a>(&'a self, i: usize) -> (r: Option<&'a JsonValue>)
        ensures
            match r {
                Some(v) => spec_get_index(self@, i as int) == Some(v@),
                None => spec_get_index(self@, i as int) is None,
            },
    {
        match self {
            JsonValue::Array(items) => {
                proof {
                    lemma_json_view_seq(items@);
                }
                if i < items.len() {
                    Some(&items[i])
                } else {
                    None
                }
            },
            _ => None,
        }
    }

    /// The element or entry count of an array or object.
    pub fn json_len(&self) -> (r: Option<usize>)
        ensures
            match r {
                Some(n) => spec_json_len(self@) == Some(n as nat),
                None => spec_json_len(self@) is None,
            },
    {
        match self {
            JsonValue::Array(items) => {
                proof {
                    lemma_json_view_seq(items@);
                }
                Some(items.len())
            },
            JsonValue::Object(entries) => {
                proof {
                    lemma_json_view_entries(entries@);
                }
                Some(entries.len())
            },
            _ => None,
        }
    }
}

/// Structural equality of two JSON numbers.
pub fn json_num_eq(a: &JsonNum, b: &JsonNum) -> (r: bool)
    ensures
        r == (a@ == b@),
{
    match (a, b) {
        (JsonNum::PosInt(x), JsonNum::PosInt(y)) => x == y,
        (JsonNum::NegInt(x), JsonNum::NegInt(y)) => x == y,
        (JsonNum::Float(x), JsonNum::Float(y)) => string_eq(x, y),
        _ => false,
    }
}

/// Structural equality of two JSON values, as `serde_json` compares
/// documents: arrays element by element, objects entry by entry in their
/// (sorted) entry order.
pub fn json_eq(a: &JsonValue, b: &JsonValue) -> (r: bool)
    ensures
        r == (a@ == b@),
    decreases *a,
{
    match (a, b) {
        (JsonValue::Null, JsonValue::Null) => true,
        (JsonValue::Bool(x), JsonValue::Bool(y)) => x == y,
        (JsonValue::Num(x), JsonValue::Num(y)) => json_num_eq(x, y),
        (JsonValue::Str(x), JsonValue::Str(y)) => string_eq(x, y),
        (JsonValue::Array(xs), JsonValue::Array(ys)) => {
            proof {
                lemma_json_view_seq(xs@);
                lemma_json_view_seq(ys@);
            }
            if xs.len() != ys.len() {
                return false;
            }
            let mut i: usize = 0;
            while i < xs.len()
                invariant
                    *a == JsonValue::Array(*xs),
                    xs@.len() == ys@.len(),
                    i <= xs@.len(),
                    a@ == JsonSpec::Array(json_view_seq(xs@)),
                    b@ == JsonSpec::Array(json_view_seq(ys@)),
                    json_view_seq(xs@).len() == xs@.len(),
                    json_view_seq(ys@).len() == ys@.len(),
                    forall|k: int|
                        0 <= k < xs@.len() ==> json_view_seq(xs@)[k] == json_view(
                            #[trigger] xs@[k],
                        ),
                    forall|k: int|
                        0 <= k < ys@.len() ==> json_view_seq(ys@)[k] == json_view(
                            #[trigger] ys@[k],
                        ),
                    forall|k: int| 0 <= k < i ==> json_view_seq(xs@)[k] == json_view_seq(ys@)[k],
                decreases xs@.len() - i,
            {
                proof {
                    broadcast use vstd::std_specs::vec::axiom_vec_index_decreases;

                    assert(decreases_to!(*a => a->Array_0));
                    assert(a->Array_0 == *xs);
                    assert(decreases_to!(*xs => xs[i as int]));
                }
                if !json_eq(&xs[i], &ys[i]) {
                    return false;
                }
                i += 1;
            }
            proof {
                assert(json_view_seq(xs@) =~= json_view_seq(ys@));
            }
            true
        },
        (JsonValue::Object(xs), JsonValue::Object(ys)) => {
            proof {
                lemma_json_view_entries(xs@);
                lemma_json_view_entries(ys@);
            }
            if xs.len() != ys.len() {
                return false;
            }
            let mut i: usize = 0;
            while i < xs.len()
                invariant
                    *a == JsonValue::Object(*xs),
                    xs@.len() == ys@.len(),
                    i <= xs@.len(),
                    a@ == JsonSpec::Object(json_view_entries(xs@)),
                    b@ == JsonSpec::Object(json_view_entries(ys@)),
                    json_view_entries(xs@).len() == xs@.len(),
                    json_view_entries(ys@).len() == ys@.len(),
                    forall|k: int|
                        0 <= k < xs@.len() ==> json_view_entries(xs@)[k] == ((
                        #[trigger] xs@[k]).0@, json_view(xs@[k].1)),
                    forall|k: int|
                        0 <= k < ys@.len() ==> json_view_entries(ys@)[k] == ((
                        #[trigger] ys@[k]).0@, json_view(ys@[k].1)),
                    forall|k: int|
                        0 <= k < i ==> json_view_entries(xs@)[k] == json_view_entries(ys@)[k],
                decreases xs@.len() - i,
            {
                proof {
                    broadcast use vstd::std_specs::vec::axiom_vec_index_decreases;

                    assert(decreases_to!(*a => a->Object_0));
                    assert(a->Object_0 == *xs);
                    assert(decreases_to!(*xs => xs[i as int]));
                    assert(decreases_to!(xs[i as int] => xs[i as int].1));
                }
                if !string_eq(&xs[i].0, &ys[i].0) {
                    return false;
                }
                if !json_eq(&xs[i].1, &ys[i].1) {
                    return false;
                }
                i += 1;
            }
            proof {
                assert(json_view_entries(xs@) =~= json_view_entries(ys@));
            }
            true
        },
        _ => false,
    }
}

/// The hexadecimal digit character for `d`, which must be below sixteen.
pub open spec fn hex_char(d: int) -> char {
    if d < 10 {
        crate::text::digit_char(d)
    } else if d == 10 {
        'a'
    } else if d == 11 {
        'b'
    } else if d == 12 {
        'c'
    } else if d == 13 {
        'd'
    } else if d == 14 {
        'e'
    } else {
        'f'
    }
}

/// How one character appears inside a rendered JSON string: quote,
/// backslash and the named control characters get a short escape, the
/// remaining control characters a `\u00..` escape, everything else stands
/// as itself.
pub open spec fn escape_char(c: char) -> Seq<char> {
    if c == '"' {
        seq!['\\', '"']
    } else if c == '\\' {
        seq!['\\', '\\']
    } else if c == '\u{8}' {
        seq!['\\', 'b']
    } else if c == '\u{c}' {
        seq!['\\', 'f']
    } else if c == '\n' {
        seq!['\\', 'n']
    } else if c == '\r' {
        seq!['\\', 'r']
    } else if c == '\t' {
        seq!['\\', 't']
    } else if (c as int) < 32 {
        let hi = hex_char((c as int) / 16);
        let lo = hex_char((c as int) % 16);
        seq!['\\', 'u', '0', '0', hi, lo]
    } else {
        seq![c]
    }
}

/// The body of a rendered JSON string: every character escaped in turn.
pub open spec fn escape_str(s: Seq<char>) -> Seq<char>
    decreases s.len(),
{
    if s.len() == 0 {
        Seq::empty()
    } else {
        escape_str(s.drop_last()) + escape_char(s.last())
    }
}

/// The rendering of a JSON number.
pub open spec fn num_text(n: JsonNumSpec) -> Seq<char> {
    match n {
        JsonNumSpec::PosInt(u) => crate::text::dec_str(u as nat),
        JsonNumSpec::NegInt(i) => crate::text::dec_str_signed(i as int),
        JsonNumSpec::Float(text) => text,
    }
}

/// The compact rendering of a JSON value, as `serde_json` prints one: no
/// added whitespace, strings quoted and escaped.
pub open spec fn json_text(v: JsonSpec) -> Seq<char>
    decreases v,
{
    match v {
        JsonSpec::Null => "null"@,
        JsonSpec::Bool(b) => if b {
            "true"@
        } else {
            "false"@
        },
        JsonSpec::Num(n) => num_text(n),
        JsonSpec::Str(s) => seq!['"'] + escape_str(s) + seq!['"'],
        JsonSpec::Array(items) => seq!['['] + json_text_items(items) + seq![']'],
        JsonSpec::Object(entries) => seq!['{'] + json_text_entries(entries) + seq!['}'],
    }
}

/// Array elements rendered with comma separators.
pub open spec fn json_text_items(items: Seq<JsonSpec>) -> Seq<char>
    decreases items,
{
    if items.len() == 0 {
        Seq::empty()
    } else if items.len() == 1 {
        json_text(items[0])
    } else {
        json_text_items(items.drop_last()) + seq![','] + json_text(items.last())
    }
}

/// Object entries rendered as `"key":value` with comma separators.
pub open spec fn json_text_entries(entries: Seq<(Seq<char>, JsonSpec)>) -> Seq<char>
    decreases entries,
{
    if entries.len() == 0 {
        Seq::empty()
    } else {
        let e = entries.last();
        let one = seq!['"'] + escape_str(e.0) + seq!['"'] + seq![':'] + json_text(e.1);
        if entries.len() == 1 {
            one
        } else {
            json_text_entries(entries.drop_last()) + seq![','] + one
        }
    }
}

/// The hexadecimal digit character for `d`.
fn hex_char_of(d: u32) -> (c: char)
    requires
        d < 16,
    ensures
        c == hex_char(d as int),
{
    if d == 0 {
        '0'
    } else if d == 1 {
        '1'
    } else if d == 2 {
        '2'
    } else if d == 3 {
        '3'
    } else if d == 4 {
        '4'
    } else if d == 5 {
        '5'
    } else if d == 6 {
        '6'
    } else if d == 7 {
        '7'
    } else if d == 8 {
        '8'
    } else if d == 9 {
        '9'
    } else if d == 10 {
        'a'
    } else if d == 11 {
        'b'
    } else if d == 12 {
        'c'
    } else if d == 13 {
        'd'
    } else if d == 14 {
        'e'
    } else {
        'f'
    }
}

/// Appends the escape of one character to `out`.
fn push_escape_char(c: char, out: &mut Vec<char>)
    ensures
        final(out)@ == old(out)@ + escape_char(c),
{
    if c == '"' {
        out.push('\\');
        out.push('"');
    } else if c == '\\' {
        out.push('\\');
        out.push('\\');
    } else if c == '\u{8}' {
        out.push('\\');
        out.push('b');
    } else if c == '\u{c}' {
        out.push('\\');
        out.push('f');
    } else if c == '\n' {
        out.push('\\');
        out.push('n');
    } else if c == '\r' {
        out.push('\\');
        out.push('r');
    } else if c == '\t' {
        out.push('\\');
        out.push('t');
    } else if (c as u32) < 32 {
        let u = c as u32;
        out.push('\\');
        out.push('u');
        out.push('0');
        out.push('0');
        out.push(hex_char_of(u / 16));
        out.push(hex_char_of(u % 16));
    } else {
        out.push(c);
    }
    proof {
        assert(out@ =~= old(out)@ + escape_char(c));
    }
}

/// Appends the escaped body of a string to `out`.
fn push_escaped(s: &String, out: &mut Vec<char>)
    ensures
        final(out)@ == old(out)@ + escape_str(s@),
{
    let chars = crate::text::to_chars(s.as_str());
    let mut i: usize = 0;
    while i < chars.len()
        invariant
            i <= chars@.len(),
            chars@ == s@,
            out@ == old(out)@ + escape_str(s@.take(i as int)),
        decreases chars@.len() - i,
    {
        proof {
            assert(s@.take(i + 1).drop_last() =~= s@.take(i as int));
            assert(s@.take(i + 1).last() == s@[i as int]);
        }
        push_escape_char(chars[i], out);
        i += 1;
    }
    proof {
        assert(s@.take(i as int) =~= s@);
    }
}

/// Appends the compact rendering of a JSON value to `out`.
fn push_json(v: &JsonValue, out: &mut Vec<char>)
    ensures
        final(out)@ == old(out)@ + json_text(v@),
    decreases *v,
{
    match v {
        JsonValue::Null => {
            crate::text::append_str(out, "null");
        },
        JsonValue::Bool(b) => {
            if *b {
                crate::text::append_str(out, "true");
            } else {
                crate::text::append_str(out, "false");
            }
        },
        JsonValue::Num(n) => {
            match n {
                JsonNum::PosInt(u) => {
                    crate::text::push_dec(*u, out);
                },
                JsonNum::NegInt(i) => {
                    let rendered = crate::text::dec_string_signed(*i);
                    crate::text::append_str(out, rendered.as_str());
                },
                JsonNum::Float(text) => {
                    crate::text::append_str(out, text.as_str());
                },
            }
        },
        JsonValue::Str(s) => {
            out.push('"');
            push_escaped(s, out);
            out.push('"');
            proof {
                assert(out@ =~= old(out)@ + json_text(v@));
            }
        },
        JsonValue::Array(items) => {
            proof {
                lemma_json_view_seq(items@);
            }
            let ghost vs = json_view_seq(items@);
            out.push('[');
            let mut i: usize = 0;
            while i < items.len()
                invariant
                    *v == JsonValue::Array(*items),
                    i <= items@.len(),
                    vs == json_view_seq(items@),
                    vs.len() == items@.len(),
                    forall|k: int|
                        0 <= k < items@.len() ==> vs[k] == json_view(#[trigger] items@[k]),
                    out@ == old(out)@ + seq!['['] + json_text_items(vs.take(i as int)),
                decreases items@.len() - i,
            {
                proof {
                    assert(vs.take(i + 1).drop_last() =~= vs.take(i as int));
                    assert(vs.take(i + 1).last() == vs[i as int]);
                    assert(decreases_to!(*v => v->Array_0));
                    assert(v->Array_0 == *items);
                    broadcast use vstd::std_specs::vec::axiom_vec_index_decreases;

                    assert(decreases_to!(*items => items[i as int]));
                }
                if i > 0 {
                    out.push(',');
                }
                push_json(&items[i], out);
                i += 1;
                proof {
                    if i > 1 {
                        assert(out@ =~= old(out)@ + seq!['['] + json_text_items(
                            vs.take(i as int),
                        ));
                    } else {
                        assert(vs.take(1).drop_last() =~= Seq::<JsonSpec>::empty());
                        assert(out@ =~= old(out)@ + seq!['['] + json_text_items(
                            vs.take(i as int),
                        ));
                    }
                }
            }
            out.push(']');
            proof {
                assert(vs.take(i as int) =~= vs);
                assert(out@ =~= old(out)@ + json_text(v@));
            }
        },
        JsonValue::Object(entries) => {
            proof {
                lemma_json_view_entries(entries@);
            }
            let ghost vs = json_view_entries(entries@);
            out.push('{');
            let mut i: usize = 0;
            while i < entries.len()
                invariant
                    *v == JsonValue::Object(*entries),
                    i <= entries@.len(),
                    vs == json_view_entries(entries@),
                    vs.len() == entries@.len(),
                    forall|k: int|
                        0 <= k < entries@.len() ==> vs[k] == ((#[trigger] entries@[k]).0@,
                        json_view(entries@[k].1)),
                    out@ == old(out)@ + seq!['{'] + json_text_entries(vs.take(i as int)),
                decreases entries@.len() - i,
            {
                proof {
                    assert(vs.take(i + 1).drop_last() =~= vs.take(i as int));
                    assert(vs.take(i + 1).last() == vs[i as int]);
                    assert(decreases_to!(*v => v->Object_0));
                    assert(v->Object_0 == *entries);
                    broadcast use vstd::std_specs::vec::axiom_vec_index_decreases;

                    assert(decreases_to!(*entries => entries[i as int]));
                    assert(decreases_to!(entries[i as int] => entries[i as int].1));
                }
                if i > 0 {
                    out.push(',');
                }
                out.push('"');
                push_escaped(&entries[i].0, out);
                out.push('"');
                out.push(':');
                push_json(&entries[i].1, out);
                i += 1;
                proof {
                    assert(out@ =~= old(out)@ + seq!['{'] + json_text_entries(
                        vs.take(i as int),
                    ));
                }
            }
            out.push('}');
            proof {
                assert(vs.take(i as int) =~= vs);
                assert(out@ =~= old(out)@ + json_text(v@));
            }
        },
    }
}

/// The compact rendering of a JSON value, as `serde_json` prints one.
pub fn json_string(v: &JsonValue) -> (s: String)
    ensures
        s@ == json_text(v@),
{
    let mut out: Vec<char> = Vec::new();
    push_json(v, &mut out);
    proof {
        assert(Seq::<char>::empty() + json_text(v@) =~= json_text(v@));
    }
    crate::text::chars_to_string(&out)
}

/// What `serde_json` makes of a candidate document: the parsed value, or
/// the parser's diagnostic for text that is not valid JSON.
pub uninterp spec fn parsed_json(s: Seq<char>) -> Result<JsonSpec, Seq<char>>;

#[verifier::external_type_specification]
#[verifier::external_body]
pub struct ExSerdeValue(serde_json::Value);

/// Converts a `serde_json` value into the crate's own model, variant for
/// variant. Trusted together with `parse_json`, whose contract names the
/// composition of parsing and this conversion.
#[verifier::external_body]
fn from_serde(v: serde_json::Value) -> JsonValue {
    match v {
        Value::Null => JsonValue::Null,
        Value::Bool(b) => JsonValue::Bool(b),
        Value::Number(n) if n.is_u64() => JsonValue::Num(JsonNum::PosInt(n.as_u64().unwrap())),
        Value::Number(n) if n.is_i64() => JsonValue::Num(JsonNum::NegInt(n.as_i64().unwrap())),
        Value::Number(n) => JsonValue::Num(JsonNum::Float(n.to_string())),
        Value::String(s) => JsonValue::Str(s),
        Value::Array(items) => JsonValue::Array(items.into_iter().map(from_serde).collect()),
        Value::Object(map) => JsonValue::Object(map.into_iter().map(|(k, x)| (k, from_serde(x))).collect()),
    }
}

/// Relies on `serde_json::from_str`: whether a string parses as JSON, the
/// value it parses to, and the diagnostic otherwise are functions of the
/// string alone.
#[verifier::external_body]
pub fn parse_json(s: &str) -> (r: Result<JsonValue, String>)
    ensures
        match r {
            Ok(v) => parsed_json(s@) == Ok::<JsonSpec, Seq<char>>(v@),
            Err(e) => parsed_json(s@) == Err::<JsonSpec, Seq<char>>(e@),
        },
{
    match serde_json::from_str::<serde_json::Value>(s) {
        Ok(v) => Ok(from_serde(v)),
        Err(e) => Err(format!("{}", e)),
    }
}

} // verus!
