//! Verified codec for the flat JSON objects of the wire format: an
//! object of string and signed 32-bit integer fields, no nesting.
//! The grammar is fixed by the spec functions here; the executable
//! parser and serializer are proved against them.
//!
//! String escapes are limited to `\"` and `\\`; any other escape is
//! rejected.  Integer values must fit the signed 32-bit range.

use vstd::prelude::*;
use vstd::string::*;
use crate::strutil::{is_space_char, is_space, push_char};

verus! {

/// A parsed JSON value: a string or a signed 32-bit integer.
pub enum JsonValue {
    S(String),
    I(i32),
}

/// The mathematical value of a [`JsonValue`].
pub enum JsonVal {
    S(Seq<char>),
    I(int),
}

impl View for JsonValue {
    type V = JsonVal;

    open spec fn view(&self) -> JsonVal {
        match self {
            JsonValue::S(s) => JsonVal::S(s@),
            JsonValue::I(v) => JsonVal::I(*v as int),
        }
    }
}

/// A decimal digit.
pub open spec fn is_digit_char(c: char) -> bool {
    '0' <= c && c <= '9'
}

/// The numeric value of a decimal digit.
pub open spec fn digit_val(c: char) -> int {
    c as int - '0' as int
}

/// Executable test for [`is_digit_char`].
pub fn is_digit(c: char) -> (r: bool)
    ensures
        r == is_digit_char(c),
{
    '0' <= c && c <= '9'
}

/// First position at or after `i` holding no whitespace.
pub open spec fn spec_skip_ws(s: Seq<char>, i: int) -> int
    decreases s.len() - i,
{
    if i < 0 {
        i
    } else if i < s.len() && is_space_char(s[i]) {
        spec_skip_ws(s, i + 1)
    } else {
        i
    }
}

/// Move past whitespace.
pub fn skip_ws(s: &str, i: usize) -> (r: usize)
    requires
        i <= s@.len(),
    ensures
        r as int == spec_skip_ws(s@, i as int),
        i <= r <= s@.len(),
{
    let len = s.unicode_len();
    let mut j = i;
    while j < len && is_space(s.get_char(j))
        invariant
            i <= j <= len,
            len == s@.len(),
            spec_skip_ws(s@, i as int) == spec_skip_ws(s@, j as int),
        decreases len - j,
    {
        j += 1;
    }
    j
}

/// The body of a JSON string, from just after the opening quote: the
/// decoded characters and the position just after the closing quote.
/// Only `\"` and `\\` escapes are understood.
pub open spec fn spec_parse_string_body(s: Seq<char>, i: int) -> Option<(Seq<char>, int)>
    decreases s.len() - i,
{
    if i < 0 || i >= s.len() {
        None
    } else if s[i] == '"' {
        Some((Seq::empty(), i + 1))
    } else if s[i] == '\\' {
        if i + 1 < s.len() && (s[i + 1] == '"' || s[i + 1] == '\\') {
            match spec_parse_string_body(s, i + 2) {
                Some((t, j)) => Some((seq![s[i + 1]] + t, j)),
                None => None,
            }
        } else {
            None
        }
    } else {
        match spec_parse_string_body(s, i + 1) {
            Some((t, j)) => Some((seq![s[i]] + t, j)),
            None => None,
        }
    }
}

/// A JSON string starting at `i`: the decoded content and the position
/// just after the closing quote.
pub open spec fn spec_parse_string(s: Seq<char>, i: int) -> Option<(Seq<char>, int)> {
    if 0 <= i && i < s.len() && s[i] == '"' {
        spec_parse_string_body(s, i + 1)
    } else {
        None
    }
}

/// Parse a JSON string at `i`.
pub fn parse_string_at(s: &str, i: usize) -> (r: Option<(String, usize)>)
    requires
        i <= s@.len(),
    ensures
        match spec_parse_string(s@, i as int) {
            Some((t, j)) => match r {
                Some(p) => p.0@ == t && p.1 as int == j && i < p.1 <= s@.len(),
                None => false,
            },
            None => r is None,
        },
{
    let len = s.unicode_len();
    if i >= len || s.get_char(i) != '"' {
        return None;
    }
    let ghost i0: int = i as int + 1;
    let mut j: usize = i + 1;
    let mut out = String::new();
    loop
        invariant
            i0 <= j <= len,
            len == s@.len(),
            i as int + 1 == i0,
            i < len,
            s@[i as int] == '"',
            (match spec_parse_string_body(s@, j as int) {
                Some((t, k)) => spec_parse_string_body(s@, i0) == Some::<(Seq<char>, int)>((
                    out@ + t,
                    k,
                )),
                None => spec_parse_string_body(s@, i0) is None,
            }),
        decreases len - j,
    {
        if j >= len {
            return None;
        }
        let c = s.get_char(j);
        if c == '"' {
            proof {
                assert(spec_parse_string_body(s@, j as int) == Some::<(Seq<char>, int)>((
                    Seq::<char>::empty(),
                    j as int + 1,
                )));
                assert(out@ + Seq::<char>::empty() =~= out@);
                assert(spec_parse_string(s@, i as int) == spec_parse_string_body(s@, i0));
            }
            return Some((out, j + 1));
        }
        if c == '\\' {
            if j + 1 < len {
                let c2 = s.get_char(j + 1);
                if c2 == '"' || c2 == '\\' {
                    proof {
                        let ghost oldo = out@;
                        if spec_parse_string_body(s@, j as int + 2) is Some {
                            let (t, k) = spec_parse_string_body(s@, j as int + 2)->0;
                            assert(oldo + (seq![s@[j as int + 1]] + t) =~= oldo.push(
                                s@[j as int + 1],
                            ) + t);
                        }
                    }
                    push_char(&mut out, c2);
                    j += 2;
                } else {
                    return None;
                }
            } else {
                return None;
            }
        } else {
            proof {
                let ghost oldo = out@;
                if spec_parse_string_body(s@, j as int + 1) is Some {
                    let (t, k) = spec_parse_string_body(s@, j as int + 1)->0;
                    assert(oldo + (seq![s@[j as int]] + t) =~= oldo.push(s@[j as int]) + t);
                }
            }
            push_char(&mut out, c);
            j += 1;
        }
    }
}

/// Accumulate the decimal digits of `s` from `i` onward onto `acc`:
/// the value and the position after the last digit.
pub open spec fn spec_parse_digits(s: Seq<char>, i: int, acc: int) -> (int, int)
    decreases s.len() - i,
{
    if 0 <= i && i < s.len() && is_digit_char(s[i]) {
        spec_parse_digits(s, i + 1, acc * 10 + digit_val(s[i]))
    } else {
        (acc, i)
    }
}

/// A JSON integer at `i`: an optional minus sign, then at least one
/// digit.  The mathematical value, unbounded.
pub open spec fn spec_parse_int(s: Seq<char>, i: int) -> Option<(int, int)> {
    if 0 <= i && i < s.len() && s[i] == '-' {
        if i + 1 < s.len() && is_digit_char(s[i + 1]) {
            let (v, j) = spec_parse_digits(s, i + 1, 0);
            Some((-v, j))
        } else {
            None
        }
    } else if 0 <= i && i < s.len() && is_digit_char(s[i]) {
        let (v, j) = spec_parse_digits(s, i, 0);
        Some((v, j))
    } else {
        None
    }
}

/// Parse a JSON integer at `i`, rejecting values outside the signed
/// 32-bit range.
pub fn parse_int_at(s: &str, i: usize) -> (r: Option<(i32, usize)>)
    requires
        i <= s@.len(),
    ensures
        match spec_parse_int(s@, i as int) {
            Some((v, j)) => {
                if i32::MIN <= v <= i32::MAX {
                    match r {
                        Some(p) => p.0 as int == v && p.1 as int == j && i < p.1 <= s@.len(),
                        None => false,
                    }
                } else {
                    r is None
                }
            },
            None => r is None,
        },
{
    let len = s.unicode_len();
    let neg: bool;
    let start: usize;
    if i < len && s.get_char(i) == '-' {
        if i + 1 < len && is_digit(s.get_char(i + 1)) {
            neg = true;
            start = i + 1;
        } else {
            return None;
        }
    } else if i < len && is_digit(s.get_char(i)) {
        neg = false;
        start = i;
    } else {
        return None;
    }
    let mut j: usize = start;
    let mut acc: u64 = 0;
    let mut over: bool = false;
    let ghost mut macc: int = 0;
    while j < len && is_digit(s.get_char(j))
        invariant
            start <= j <= len,
            len == s@.len(),
            start < len,
            is_digit_char(s@[start as int]),
            macc >= 0,
            spec_parse_digits(s@, start as int, 0) == spec_parse_digits(s@, j as int, macc),
            over <==> macc > 0x8000_0000,
            !over ==> acc as int == macc,
            acc <= 0x8000_0000,
        decreases len - j,
    {
        let c = s.get_char(j);
        let d: u64 = (c as u32 as u64) - ('0' as u32 as u64);
        proof {
            assert(d as int == digit_val(s@[j as int]));
            let m2 = macc * 10 + digit_val(s@[j as int]);
            if macc > 0x8000_0000 {
                assert(macc * 10 == macc + 9 * macc);
                assert(m2 > 0x8000_0000);
            }
        }
        if !over {
            let next = acc * 10 + d;
            if next > 0x8000_0000 {
                over = true;
            } else {
                acc = next;
            }
        }
        proof {
            macc = macc * 10 + digit_val(s@[j as int]);
        }
        j += 1;
    }
    proof {
        assert(j > start);
        assert(spec_parse_digits(s@, j as int, macc) == (macc, j as int));
    }
    if over {
        return None;
    }
    if neg {
        let v: i64 = -(acc as i64);
        return Some((v as i32, j));
    }
    if acc > 0x7fff_ffff {
        return None;
    }
    Some((acc as i32, j))
}

/// A JSON value at `i`: a string, or an integer within the signed
/// 32-bit range.
pub open spec fn spec_parse_value(s: Seq<char>, i: int) -> Option<(JsonVal, int)> {
    if 0 <= i && i < s.len() && s[i] == '"' {
        match spec_parse_string(s, i) {
            Some((t, j)) => Some((JsonVal::S(t), j)),
            None => None,
        }
    } else if 0 <= i && i < s.len() && (s[i] == '-' || is_digit_char(s[i])) {
        match spec_parse_int(s, i) {
            Some((v, j)) => {
                if i32::MIN <= v <= i32::MAX {
                    Some((JsonVal::I(v), j))
                } else {
                    None
                }
            },
            None => None,
        }
    } else {
        None
    }
}

/// Parse a JSON value at `i`.
pub fn parse_value_at(s: &str, i: usize) -> (r: Option<(JsonValue, usize)>)
    requires
        i <= s@.len(),
    ensures
        match spec_parse_value(s@, i as int) {
            Some((v, j)) => match r {
                Some(p) => p.0@ == v && p.1 as int == j && i < p.1 <= s@.len(),
                None => false,
            },
            None => r is None,
        },
{
    let len = s.unicode_len();
    if i >= len {
        return None;
    }
    let c = s.get_char(i);
    if c == '"' {
        match parse_string_at(s, i) {
            Some(p) => Some((JsonValue::S(p.0), p.1)),
            None => None,
        }
    } else if c == '-' || is_digit(c) {
        match parse_int_at(s, i) {
            Some(p) => Some((JsonValue::I(p.0), p.1)),
            None => None,
        }
    } else {
        None
    }
}

/// A `"key": value` pair at `i`: the pair and the position just after
/// the value.
pub open spec fn spec_parse_pair(s: Seq<char>, i: int) -> Option<((Seq<char>, JsonVal), int)> {
    match spec_parse_string(s, i) {
        Some((k, j)) => {
            let j2 = spec_skip_ws(s, j);
            if 0 <= j2 && j2 < s.len() && s[j2] == ':' {
                let j3 = spec_skip_ws(s, j2 + 1);
                match spec_parse_value(s, j3) {
                    Some((v, j4)) => Some(((k, v), j4)),
                    None => None,
                }
            } else {
                None
            }
        },
        None => None,
    }
}

/// Parse a `"key": value` pair at `i`.
pub fn parse_pair_at(s: &str, i: usize) -> (r: Option<((String, JsonValue), usize)>)
    requires
        i <= s@.len(),
    ensures
        match spec_parse_pair(s@, i as int) {
            Some((p, j)) => match r {
                Some(q) => ({
                    let kv = q.0;
                    kv.0@ == p.0 && kv.1@ == p.1 && q.1 as int == j && i < q.1 <= s@.len()
                }),
                None => false,
            },
            None => r is None,
        },
{
    let k = match parse_string_at(s, i) {
        Some(p) => p,
        None => {
            return None;
        },
    };
    let j2 = skip_ws(s, k.1);
    if j2 >= s.unicode_len() || s.get_char(j2) != ':' {
        return None;
    }
    let j3 = skip_ws(s, j2 + 1);
    match parse_value_at(s, j3) {
        Some(v) => Some(((k.0, v.0), v.1)),
        None => None,
    }
}

/// A comma-separated pair list starting at `i`, ending just before the
/// closing brace: the pairs in order, and the position of the brace
/// (whitespace already skipped).
pub open spec fn spec_parse_pairs(s: Seq<char>, i: int) -> Option<(
    Seq<(Seq<char>, JsonVal)>,
    int,
)>
    decreases s.len() - i,
{
    match spec_parse_pair(s, i) {
        Some((p, j)) => {
            let j2 = spec_skip_ws(s, j);
            if 0 <= j2 && j2 < s.len() && s[j2] == ',' {
                let j3 = spec_skip_ws(s, j2 + 1);
                if i < j3 <= s.len() {
                    match spec_parse_pairs(s, j3) {
                        Some((ps, k)) => Some((seq![p] + ps, k)),
                        None => None,
                    }
                } else {
                    None
                }
            } else {
                Some((seq![p], j2))
            }
        },
        None => None,
    }
}

/// The view of a parsed pair vector.
pub open spec fn pairs_view(v: Seq<(String, JsonValue)>) -> Seq<(Seq<char>, JsonVal)> {
    v.map(|i: int, p: (String, JsonValue)| (p.0@, p.1@))
}

/// Parse the pair list of an object body at `i`.
fn parse_pairs_at(s: &str, i: usize) -> (r: Option<(Vec<(String, JsonValue)>, usize)>)
    requires
        i <= s@.len(),
    ensures
        match spec_parse_pairs(s@, i as int) {
            Some((ps, j)) => match r {
                Some(q) => pairs_view(q.0@) == ps && q.1 as int == j && q.1 <= s@.len(),
                None => false,
            },
            None => r is None,
        },
{
    let len = s.unicode_len();
    let mut out: Vec<(String, JsonValue)> = Vec::new();
    let mut cur: usize = i;
    loop
        invariant
            i <= cur <= len,
            len == s@.len(),
            (match spec_parse_pairs(s@, cur as int) {
                Some((ps, j)) => spec_parse_pairs(s@, i as int) == Some::<(
                    Seq<(Seq<char>, JsonVal)>,
                    int,
                )>((pairs_view(out@) + ps, j)),
                None => spec_parse_pairs(s@, i as int) is None,
            }),
        decreases len - cur,
    {
        let p = match parse_pair_at(s, cur) {
            Some(p) => p,
            None => {
                return None;
            },
        };
        let j2 = skip_ws(s, p.1);
        let ghost oldout = out@;
        let ghost pv = ((p.0).0@, (p.0).1@);
        if j2 < len && s.get_char(j2) == ',' {
            let j3 = skip_ws(s, j2 + 1);
            if j3 <= cur {
                return None;
            }
            out.push(p.0);
            proof {
                assert(pairs_view(out@) =~= pairs_view(oldout).push(pv));
                if spec_parse_pairs(s@, j3 as int) is Some {
                    let (ps, k) = spec_parse_pairs(s@, j3 as int)->0;
                    assert(pairs_view(oldout) + (seq![pv] + ps) =~= pairs_view(out@) + ps);
                }
            }
            cur = j3;
        } else {
            out.push(p.0);
            proof {
                assert(pairs_view(out@) =~= pairs_view(oldout).push(pv));
                assert(pairs_view(oldout) + seq![pv] =~= pairs_view(out@));
            }
            return Some((out, j2));
        }
    }
}

/// A complete flat JSON object, with optional surrounding whitespace
/// running to the end of the input.
pub open spec fn spec_parse_object(s: Seq<char>) -> Option<Seq<(Seq<char>, JsonVal)>> {
    let i0 = spec_skip_ws(s, 0);
    if 0 <= i0 && i0 < s.len() && s[i0] == '{' {
        let i1 = spec_skip_ws(s, i0 + 1);
        if 0 <= i1 && i1 < s.len() && s[i1] == '}' {
            if spec_skip_ws(s, i1 + 1) == s.len() {
                Some(Seq::empty())
            } else {
                None
            }
        } else {
            match spec_parse_pairs(s, i1) {
                Some((ps, j)) => {
                    if 0 <= j && j < s.len() && s[j] == '}' && spec_skip_ws(s, j + 1) == s.len() {
                        Some(ps)
                    } else {
                        None
                    }
                },
                None => None,
            }
        }
    } else {
        None
    }
}

/// Parse a complete flat JSON object.
pub fn parse_object(s: &str) -> (r: Option<Vec<(String, JsonValue)>>)
    ensures
        match spec_parse_object(s@) {
            Some(ps) => match r {
                Some(q) => pairs_view(q@) == ps,
                None => false,
            },
            None => r is None,
        },
{
    let len = s.unicode_len();
    let i0 = skip_ws(s, 0);
    if i0 >= len || s.get_char(i0) != '{' {
        return None;
    }
    let i1 = skip_ws(s, i0 + 1);
    if i1 < len && s.get_char(i1) == '}' {
        if skip_ws(s, i1 + 1) == len {
            let out: Vec<(String, JsonValue)> = Vec::new();
            proof {
                assert(pairs_view(out@) =~= Seq::<(Seq<char>, JsonVal)>::empty());
            }
            return Some(out);
        }
        return None;
    }
    let ps = match parse_pairs_at(s, i1) {
        Some(p) => p,
        None => {
            return None;
        },
    };
    if ps.1 < len && s.get_char(ps.1) == '}' && skip_ws(s, ps.1 + 1) == len {
        Some(ps.0)
    } else {
        None
    }
}

/// One serialized character: quotes and backslashes get a backslash
/// escape, everything else stands for itself.
pub open spec fn spec_escape_char(c: char) -> Seq<char> {
    if c == '"' || c == '\\' {
        seq!['\\', c]
    } else {
        seq![c]
    }
}

/// The serialized body of a JSON string.
pub open spec fn spec_escape(s: Seq<char>) -> Seq<char>
    decreases s.len(),
{
    if s.len() == 0 {
        Seq::empty()
    } else {
        spec_escape_char(s[0]) + spec_escape(s.subrange(1, s.len() as int))
    }
}

/// A serialized JSON string: quote, escaped body, quote.
pub open spec fn spec_json_string(s: Seq<char>) -> Seq<char> {
    seq!['"'] + spec_escape(s) + seq!['"']
}

/// Escaping distributes over appending one character.
pub proof fn lemma_escape_push(s: Seq<char>, c: char)
    ensures
        spec_escape(s.push(c)) == spec_escape(s) + spec_escape_char(c),
    decreases s.len(),
{
    let p = s.push(c);
    assert(p[0] == if s.len() == 0 { c } else { s[0] });
    if s.len() == 0 {
        assert(p.subrange(1, p.len() as int) =~= Seq::<char>::empty());
        assert(spec_escape(p) == spec_escape_char(c) + spec_escape(Seq::<char>::empty()));
        assert(spec_escape_char(c) + Seq::<char>::empty() =~= Seq::<char>::empty()
            + spec_escape_char(c));
    } else {
        assert(p.subrange(1, p.len() as int) =~= s.subrange(1, s.len() as int).push(c));
        lemma_escape_push(s.subrange(1, s.len() as int), c);
        assert(spec_escape_char(p[0]) + (spec_escape(s.subrange(1, s.len() as int))
            + spec_escape_char(c)) =~= spec_escape(s) + spec_escape_char(c));
    }
}

/// Append the JSON-string serialization of `s` to `out`.
pub fn append_json_string(out: &mut String, s: &str)
    ensures
        final(out)@ == old(out)@ + spec_json_string(s@),
{
    push_char(out, '"');
    let len = s.unicode_len();
    let mut i: usize = 0;
    while i < len
        invariant
            0 <= i <= len,
            len == s@.len(),
            out@ == old(out)@ + seq!['"'] + spec_escape(s@.subrange(0, i as int)),
        decreases len - i,
    {
        let c = s.get_char(i);
        proof {
            let pre = s@.subrange(0, i as int);
            lemma_escape_push(pre, s@[i as int]);
            assert(s@.subrange(0, i as int + 1) =~= pre.push(s@[i as int]));
        }
        let ghost before = out@;
        if c == '"' || c == '\\' {
            push_char(out, '\\');
            push_char(out, c);
            proof {
                assert(before.push('\\').push(c) =~= before + spec_escape_char(s@[i as int]));
            }
        } else {
            push_char(out, c);
            proof {
                assert(before.push(c) =~= before + spec_escape_char(s@[i as int]));
            }
        }
        proof {
            assert((old(out)@ + seq!['"'] + spec_escape(s@.subrange(0, i as int)))
                + spec_escape_char(s@[i as int]) =~= old(out)@ + seq!['"'] + spec_escape(
                s@.subrange(0, i as int + 1),
            ));
        }
        i += 1;
    }
    proof {
        assert(s@.subrange(0, s@.len() as int) =~= s@);
    }
    push_char(out, '"');
    proof {
        assert((old(out)@ + seq!['"'] + spec_escape(s@)).push('"') =~= old(out)@
            + spec_json_string(s@));
    }
}

/// The character of a decimal digit.
pub open spec fn spec_digit_char(d: int) -> char {
    if d == 0 {
        '0'
    } else if d == 1 {
        '1'
    } else if d == 2 {
        '2'
    } else if d == 3 {
        '3'
    } else if d == 4 {
        '4'
    } else if d == 5 {
        '5'
    } else if d == 6 {
        '6'
    } else if d == 7 {
        '7'
    } else if d == 8 {
        '8'
    } else {
        '9'
    }
}

/// The decimal representation of a non-negative integer, most
/// significant digit first.
pub open spec fn spec_dec_nat(n: int) -> Seq<char>
    decreases n,
{
    if n < 10 {
        seq![spec_digit_char(n)]
    } else {
        spec_dec_nat(n / 10).push(spec_digit_char(n % 10))
    }
}

/// The decimal representation of a signed integer.
pub open spec fn spec_dec_int(v: int) -> Seq<char> {
    if v < 0 {
        seq!['-'] + spec_dec_nat(-v)
    } else {
        spec_dec_nat(v)
    }
}

/// The character of one decimal digit.
fn digit_char(d: u64) -> (c: char)
    requires
        d < 10,
    ensures
        c == spec_digit_char(d as int),
{
    match d {
        0 => '0',
        1 => '1',
        2 => '2',
        3 => '3',
        4 => '4',
        5 => '5',
        6 => '6',
        7 => '7',
        8 => '8',
        _ => '9',
    }
}

/// Append the decimal digits of `n` to `out`.
fn append_dec_u64(out: &mut String, n: u64)
    ensures
        final(out)@ == old(out)@ + spec_dec_nat(n as int),
    decreases n,
{
    if n < 10 {
        push_char(out, digit_char(n));
        proof {
            assert(old(out)@.push(spec_digit_char(n as int)) =~= old(out)@ + spec_dec_nat(
                n as int,
            ));
        }
    } else {
        append_dec_u64(out, n / 10);
        push_char(out, digit_char(n % 10));
        proof {
            assert((old(out)@ + spec_dec_nat(n as int / 10)).push(
                spec_digit_char(n as int % 10),
            ) =~= old(out)@ + spec_dec_nat(n as int));
        }
    }
}

/// Append the decimal representation of `v` to `out`.
pub fn append_i32(out: &mut String, v: i32)
    ensures
        final(out)@ == old(out)@ + spec_dec_int(v as int),
{
    if v < 0 {
        push_char(out, '-');
        let m: u64 = (-(v as i64)) as u64;
        append_dec_u64(out, m);
        proof {
            assert(old(out)@.push('-') + spec_dec_nat(m as int) =~= old(out)@ + spec_dec_int(
                v as int,
            ));
        }
    } else {
        append_dec_u64(out, v as u64);
    }
}

/// Ten to the `k`.
pub open spec fn pow10(k: int) -> int
    decreases k,
{
    if k <= 0 {
        1
    } else {
        10 * pow10(k - 1)
    }
}

/// The decimal representation is non-empty and all digits.
pub proof fn lemma_dec_nat_digits(n: int)
    requires
        n >= 0,
    ensures
        spec_dec_nat(n).len() >= 1,
        forall|k: int|
            0 <= k < spec_dec_nat(n).len() ==> is_digit_char(#[trigger] spec_dec_nat(n)[k]),
    decreases n,
{
    if n >= 10 {
        lemma_dec_nat_digits(n / 10);
        assert forall|k: int|
            0 <= k < spec_dec_nat(n).len() implies is_digit_char(
            #[trigger] spec_dec_nat(n)[k],
        ) by {
            if k < spec_dec_nat(n / 10).len() {
                assert(spec_dec_nat(n)[k] == spec_dec_nat(n / 10)[k]);
            }
        }
    }
}

/// Consuming the digits of `n` multiplies the accumulator out and
/// adds `n`.
pub proof fn lemma_parse_digits_chunk(w: Seq<char>, i: int, n: int, acc: int)
    requires
        n >= 0,
        acc >= 0,
        0 <= i,
        i + spec_dec_nat(n).len() <= w.len(),
        w.subrange(i, i + spec_dec_nat(n).len()) == spec_dec_nat(n),
    ensures
        spec_parse_digits(w, i, acc) == spec_parse_digits(
            w,
            i + spec_dec_nat(n).len(),
            acc * pow10(spec_dec_nat(n).len() as int) + n,
        ),
    decreases n,
{
    lemma_dec_nat_digits(n);
    if n < 10 {
        assert(w.subrange(i, i + spec_dec_nat(n).len())[0] == w[i]);
        assert(w[i] == spec_dec_nat(n)[0]);
        assert(is_digit_char(w[i]));
        assert(digit_val(spec_digit_char(n)) == n);
        assert(pow10(0) == 1);
        assert(pow10(1) == 10);
    } else {
        let k1 = spec_dec_nat(n / 10).len() as int;
        lemma_dec_nat_digits(n / 10);
        assert(w.subrange(i, i + k1) =~= spec_dec_nat(n / 10)) by {
            assert(forall|k: int|
                0 <= k < k1 ==> #[trigger] w.subrange(i, i + spec_dec_nat(n).len())[k] == w[i
                    + k]);
        }
        lemma_parse_digits_chunk(w, i, n / 10, acc);
        let acc1 = acc * pow10(k1) + n / 10;
        lemma_pow10_pos(k1);
        assert(acc1 >= 0) by (nonlinear_arith)
            requires
                acc >= 0,
                n >= 10,
                pow10(k1) >= 1,
                acc1 == acc * pow10(k1) + n / 10,
        ;
        assert(w.subrange(i, i + spec_dec_nat(n).len())[k1] == w[i + k1]);
        assert(w[i + k1] == spec_dec_nat(n)[k1]);
        assert(spec_dec_nat(n)[k1] == spec_digit_char(n % 10));
        assert(digit_val(spec_digit_char(n % 10)) == n % 10);
        assert(is_digit_char(w[i + k1]));
        assert(spec_parse_digits(w, i + k1, acc1) == spec_parse_digits(
            w,
            i + k1 + 1,
            acc1 * 10 + n % 10,
        ));
        vstd::arithmetic::div_mod::lemma_fundamental_div_mod(n, 10);
        assert(acc1 * 10 + n % 10 == acc * pow10(k1 + 1) + n) by (nonlinear_arith)
            requires
                acc1 == acc * pow10(k1) + n / 10,
                pow10(k1 + 1) == 10 * pow10(k1),
                n == 10 * (n / 10) + n % 10,
        ;
        assert(spec_dec_nat(n).len() == k1 + 1);
    }
}

/// Ten to any power is positive.
pub proof fn lemma_pow10_pos(k: int)
    ensures
        pow10(k) >= 1,
    decreases k,
{
    if k > 0 {
        lemma_pow10_pos(k - 1);
    }
}

/// Parsing at the start of a serialized integer yields exactly its
/// value, when no digit follows it.
pub proof fn lemma_parse_int_at(w: Seq<char>, i: int, v: int)
    requires
        0 <= i,
        i + spec_dec_int(v).len() <= w.len(),
        w.subrange(i, i + spec_dec_int(v).len()) == spec_dec_int(v),
        i + spec_dec_int(v).len() < w.len() ==> !is_digit_char(w[i + spec_dec_int(v).len()]),
    ensures
        spec_parse_int(w, i) == Some((v, i + spec_dec_int(v).len())),
{
    if v >= 0 {
        lemma_dec_nat_digits(v);
        assert(w.subrange(i, i + spec_dec_int(v).len())[0] == w[i]);
        assert(w[i] == spec_dec_nat(v)[0]);
        assert(is_digit_char(w[i]));
        lemma_parse_digits_chunk(w, i, v, 0);
        let stop = i + spec_dec_nat(v).len();
        assert(spec_parse_digits(w, stop, v) == (v, stop));
        assert(0 * pow10(spec_dec_nat(v).len() as int) + v == v) by (nonlinear_arith);
    } else {
        lemma_dec_nat_digits(-v);
        assert(w.subrange(i, i + spec_dec_int(v).len())[0] == w[i]);
        assert(w[i] == '-');
        assert(w.subrange(i, i + spec_dec_int(v).len())[1] == w[i + 1]);
        assert(w[i + 1] == spec_dec_nat(-v)[0]);
        assert(is_digit_char(w[i + 1]));
        assert forall|k: int| 0 <= k < spec_dec_nat(-v).len() implies #[trigger] w.subrange(
            i + 1,
            i + 1 + spec_dec_nat(-v).len(),
        )[k] == spec_dec_nat(-v)[k] by {
            assert(w.subrange(i + 1, i + 1 + spec_dec_nat(-v).len())[k] == w[i + 1 + k]);
            assert(w.subrange(i, i + spec_dec_int(v).len())[k + 1] == w[i + 1 + k]);
            assert(spec_dec_int(v)[k + 1] == spec_dec_nat(-v)[k]);
        }
        assert(w.subrange(i + 1, i + 1 + spec_dec_nat(-v).len()) =~= spec_dec_nat(-v));
        lemma_parse_digits_chunk(w, i + 1, -v, 0);
        let stop = i + 1 + spec_dec_nat(-v).len();
        assert(spec_parse_digits(w, stop, -v) == (-v, stop));
        assert(0 * pow10(spec_dec_nat(-v).len() as int) + -v == -v) by (nonlinear_arith);
    }
}

/// Escaping text free of quotes and backslashes changes nothing.
pub proof fn lemma_escape_plain(s: Seq<char>)
    requires
        forall|k: int| 0 <= k < s.len() ==> #[trigger] s[k] != '"' && s[k] != '\\',
    ensures
        spec_escape(s) == s,
    decreases s.len(),
{
    if s.len() > 0 {
        let tail = s.subrange(1, s.len() as int);
        assert(forall|k: int| 0 <= k < tail.len() ==> #[trigger] tail[k] == s[k + 1]);
        lemma_escape_plain(tail);
        assert(spec_escape(s) =~= s);
    }
}

/// Parsing just after the opening quote of a serialized string yields
/// exactly its content, ending just past the closing quote.
pub proof fn lemma_parse_string_body_at(w: Seq<char>, i: int, s: Seq<char>)
    requires
        0 <= i,
        i + spec_escape(s).len() + 1 <= w.len(),
        w.subrange(i, i + spec_escape(s).len() + 1) == spec_escape(s) + seq!['"'],
    ensures
        spec_parse_string_body(w, i) == Some((s, i + spec_escape(s).len() + 1)),
    decreases s.len(),
{
    let e0 = spec_escape(s);
    if s.len() == 0 {
        assert(w.subrange(i, i + e0.len() + 1)[0] == w[i]);
        assert(w[i] == '"');
    } else {
        let tail = s.subrange(1, s.len() as int);
        let et = spec_escape(tail);
        assert(e0 == spec_escape_char(s[0]) + et);
        if s[0] == '"' || s[0] == '\\' {
            assert(w.subrange(i, i + e0.len() + 1)[0] == w[i]);
            assert(w[i] == '\\');
            assert(w.subrange(i, i + e0.len() + 1)[1] == w[i + 1]);
            assert(w[i + 1] == s[0]);
            assert forall|k: int| 0 <= k < et.len() + 1 implies w.subrange(
                i + 2,
                i + 2 + et.len() + 1,
            )[k] == (et + seq!['"'])[k] by {
                assert(w.subrange(i + 2, i + 2 + et.len() + 1)[k] == w[i + 2 + k]);
                assert(w.subrange(i, i + e0.len() + 1)[k + 2] == w[i + 2 + k]);
                assert((e0 + seq!['"'])[k + 2] == (et + seq!['"'])[k]);
            }
            assert(w.subrange(i + 2, i + 2 + et.len() + 1) =~= et + seq!['"']);
            lemma_parse_string_body_at(w, i + 2, tail);
            assert(seq![w[i + 1]] + tail =~= s);
        } else {
            assert(w.subrange(i, i + e0.len() + 1)[0] == w[i]);
            assert(w[i] == s[0]);
            assert(w[i] != '"' && w[i] != '\\');
            assert forall|k: int| 0 <= k < et.len() + 1 implies w.subrange(
                i + 1,
                i + 1 + et.len() + 1,
            )[k] == (et + seq!['"'])[k] by {
                assert(w.subrange(i + 1, i + 1 + et.len() + 1)[k] == w[i + 1 + k]);
                assert(w.subrange(i, i + e0.len() + 1)[k + 1] == w[i + 1 + k]);
                assert((e0 + seq!['"'])[k + 1] == (et + seq!['"'])[k]);
            }
            assert(w.subrange(i + 1, i + 1 + et.len() + 1) =~= et + seq!['"']);
            lemma_parse_string_body_at(w, i + 1, tail);
            assert(seq![w[i]] + tail =~= s);
        }
    }
}

/// Parsing at the start of a serialized string yields exactly its
/// content.
pub proof fn lemma_parse_string_at(w: Seq<char>, i: int, s: Seq<char>)
    requires
        0 <= i,
        i + spec_json_string(s).len() <= w.len(),
        w.subrange(i, i + spec_json_string(s).len()) == spec_json_string(s),
    ensures
        spec_parse_string(w, i) == Some((s, i + spec_json_string(s).len())),
{
    let e0 = spec_escape(s);
    assert(w.subrange(i, i + spec_json_string(s).len())[0] == w[i]);
    assert(w[i] == '"');
    assert forall|k: int| 0 <= k < e0.len() + 1 implies w.subrange(
        i + 1,
        i + 1 + e0.len() + 1,
    )[k] == (e0 + seq!['"'])[k] by {
        assert(w.subrange(i + 1, i + 1 + e0.len() + 1)[k] == w[i + 1 + k]);
        assert(w.subrange(i, i + spec_json_string(s).len())[k + 1] == w[i + 1 + k]);
        assert(spec_json_string(s)[k + 1] == (e0 + seq!['"'])[k]);
    }
    assert(w.subrange(i + 1, i + 1 + e0.len() + 1) =~= e0 + seq!['"']);
    lemma_parse_string_body_at(w, i + 1, s);
}

/// The tokens of one serialized `"key": value` pair, read off a
/// surrounding text: the quoted key after the separator, the colon,
/// and the serialized value.
pub open spec fn spec_pair_layout(
    w: Seq<char>,
    sep: int,
    key: Seq<char>,
    b: int,
    v: Seq<char>,
) -> bool {
    &&& 0 <= sep < b
    &&& sep + 1 + spec_json_string(key).len() == b - 1
    &&& b + v.len() <= w.len()
    &&& w.subrange(sep + 1, b - 1) == spec_json_string(key)
    &&& w[b - 1] == ':'
    &&& w.subrange(b, b + v.len()) == v
}

/// A pair whose value is a string parses where its layout says.
#[verifier::rlimit(100)]
#[verifier::spinoff_prover]
pub proof fn lemma_parse_string_pair_at(
    w: Seq<char>,
    sep: int,
    key: Seq<char>,
    b: int,
    v: Seq<char>,
)
    requires
        spec_pair_layout(w, sep, key, b, spec_json_string(v)),
        spec_escape(key) == key,
    ensures
        spec_parse_pair(w, sep + 1) == Some(
            ((key, JsonVal::S(v)), b + spec_json_string(v).len() as int),
        ),
{
    let jv = spec_json_string(v);
    lemma_parse_string_at(w, sep + 1, key);
    lemma_parse_string_at(w, b, v);
    assert(w[b] == '"') by {
        assert(w.subrange(b, b + jv.len())[0] == w[b]);
    }
    assert(spec_skip_ws(w, b - 1) == b - 1);
    assert(spec_skip_ws(w, b) == b);
    assert(spec_parse_value(w, b) == Some((JsonVal::S(v), b + jv.len() as int)));
}

/// A pair whose value is an in-range integer, not followed by a
/// digit, parses where its layout says.
#[verifier::rlimit(100)]
#[verifier::spinoff_prover]
pub proof fn lemma_parse_int_pair_at(w: Seq<char>, sep: int, key: Seq<char>, b: int, v: int)
    requires
        spec_pair_layout(w, sep, key, b, spec_dec_int(v)),
        spec_escape(key) == key,
        i32::MIN <= v <= i32::MAX,
        b + spec_dec_int(v).len() < w.len(),
        !is_digit_char(w[b + spec_dec_int(v).len()]),
    ensures
        spec_parse_pair(w, sep + 1) == Some(
            ((key, JsonVal::I(v)), b + spec_dec_int(v).len() as int),
        ),
{
    let dv = spec_dec_int(v);
    lemma_parse_string_at(w, sep + 1, key);
    lemma_dec_nat_digits(
        if v >= 0 {
            v
        } else {
            -v
        },
    );
    assert(w[b] == dv[0]) by {
        assert(w.subrange(b, b + dv.len())[0] == w[b]);
    }
    assert(dv[0] == '-' || is_digit_char(dv[0]));
    lemma_parse_int_at(w, b, v);
    assert(spec_skip_ws(w, b - 1) == b - 1);
    assert(spec_skip_ws(w, b) == b);
    assert(w[b] != '"');
    assert(spec_parse_value(w, b) == Some((JsonVal::I(v), b + dv.len() as int)));
}

} // verus!
