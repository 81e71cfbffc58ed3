//! The basic tokens of RFC 3501's formal syntax: numbers, strings, atoms.

use vstd::prelude::*;
use std::ops::RangeInclusive;
use crate::types::model::ranges_view;
use crate::parser::combinators::{
    parser_ok, recognizer_ok, sep_list1, spec_sep_list1, SpecParser, SpecRecognizer,
};
use crate::parser::base::{
    byte, class_has, class_test, copy_bytes, dv, incomplete, incomplete_of, lemma_scan_end, pv,
    scan, scan_end, spec_byte, spec_kw, spec_take_while, spec_take_while1, tag_kw, take_while,
    take_while1, spec_take_while1_complete, take_while1_complete, utf8_opt, utf8_string, wf, wfp,
    finish, iresult_is, IResult, Class, Kw, Needed, PPos, PRes, ParseError, SPos, SRes,
};

verus! {

// ----- number -----

/// The value of a run of decimal digits.
pub open spec fn dec_val(d: Seq<u8>) -> nat
    decreases d.len(),
{
    if d.len() == 0 {
        0
    } else {
        dec_val(d.drop_last()) * 10 + (d.last() - 48) as nat
    }
}

/// The value of the digits `s[i..e]`, or `None` above `max`.
fn digits_value(s: &[u8], i: usize, e: usize, max: u128) -> (r: Option<u128>)
    requires
        i <= e <= s@.len(),
        max <= u64::MAX,
        forall|k: int| i <= k < e ==> 0x30 <= #[trigger] s@[k] <= 0x39,
    ensures
        r matches Some(v) ==> v == dec_val(s@.subrange(i as int, e as int)) && v <= max,
        r is None ==> dec_val(s@.subrange(i as int, e as int)) > max,
{
    let mut v: u128 = 0;
    let mut over = false;
    let mut k = i;
    while k < e
        invariant
            i <= k <= e <= s@.len(),
            max <= u64::MAX,
            forall|q: int| i <= q < e ==> 0x30 <= #[trigger] s@[q] <= 0x39,
            over ==> dec_val(s@.subrange(i as int, k as int)) > max,
            !over ==> v == dec_val(s@.subrange(i as int, k as int)) && v <= max,
        decreases e - k,
    {
        let d = s[k] - 0x30;
        proof {
            assert(s@.subrange(i as int, k + 1).drop_last() =~= s@.subrange(i as int, k as int));
        }
        if !over {
            v = v * 10 + d as u128;
            if v > max {
                over = true;
            }
        }
        k = k + 1;
    }
    if over {
        None
    } else {
        Some(v)
    }
}

/// number = 1*DIGIT, an unsigned 32-bit value.
pub open spec fn spec_number(s: Seq<u8>, i: int) -> SRes<u32> {
    match spec_take_while1(s, i, Class::Digit) {
        Ok(e) => if dec_val(s.subrange(i, e)) <= u32::MAX {
            Ok((e, dec_val(s.subrange(i, e)) as u32))
        } else {
            Err(ParseError::Error)
        },
        Err(x) => Err(x),
    }
}

/// The same run of digits as an unsigned 64-bit value.
pub open spec fn spec_number_64(s: Seq<u8>, i: int) -> SRes<u64> {
    match spec_take_while1(s, i, Class::Digit) {
        Ok(e) => if dec_val(s.subrange(i, e)) <= u64::MAX {
            Ok((e, dec_val(s.subrange(i, e)) as u64))
        } else {
            Err(ParseError::Error)
        },
        Err(x) => Err(x),
    }
}

pub fn p_number(s: &[u8], i: usize) -> (r: PRes<u32>)
    requires
        i <= s@.len(),
    ensures
        dv(r) == spec_number(s@, i as int),
        wf(r, s@, i as int),
{
    let e = match take_while1(s, i, Class::Digit) {
        Ok(e) => e,
        Err(x) => return Err(x),
    };
    proof {
        lemma_scan_end(s@, i as int, Class::Digit);
    }
    match digits_value(s, i, e, 0xffff_ffff) {
        Some(v) => Ok((e, v as u32)),
        None => Err(ParseError::Error),
    }
}

pub fn p_number_64(s: &[u8], i: usize) -> (r: PRes<u64>)
    requires
        i <= s@.len(),
    ensures
        dv(r) == spec_number_64(s@, i as int),
        wf(r, s@, i as int),
{
    let e = match take_while1(s, i, Class::Digit) {
        Ok(e) => e,
        Err(x) => return Err(x),
    };
    proof {
        lemma_scan_end(s@, i as int, Class::Digit);
    }
    match digits_value(s, i, e, 0xffff_ffff_ffff_ffff) {
        Some(v) => Ok((e, v as u64)),
        None => Err(ParseError::Error),
    }
}

// ----- quoted -----

/// The escaped content of a quoted string starting at `i`: runs of plain bytes and
/// the escapes `\\` and `\"`, up to the first byte that is neither. Input that ends
/// inside the content asks for more.
pub open spec fn spec_escaped(s: Seq<u8>, i: int) -> SPos
    decreases s.len() - i,
{
    if i < 0 || i >= s.len() {
        Err(ParseError::Incomplete(Needed::Unknown))
    } else if class_has(Class::QuotedText, s[i]) {
        if scan_end(s, i, Class::QuotedText) >= s.len() {
            Err(incomplete(1))
        } else {
            proof {
                lemma_scan_end(s, i, Class::QuotedText);
            }
            spec_escaped(s, scan_end(s, i, Class::QuotedText))
        }
    } else if s[i] == 0x5c {
        if i + 1 >= s.len() {
            Err(incomplete(1))
        } else if s[i + 1] == 0x5c || s[i + 1] == 0x22 {
            if i + 2 >= s.len() {
                Err(ParseError::Incomplete(Needed::Unknown))
            } else {
                spec_escaped(s, i + 2)
            }
        } else {
            Err(ParseError::Error)
        }
    } else {
        Ok(i)
    }
}

fn escaped_end(s: &[u8], i: usize) -> (r: PPos)
    requires
        i <= s@.len(),
    ensures
        pv(r) == spec_escaped(s@, i as int),
        wfp(r, s@, i as int),
        r matches Ok(e) ==> e < s@.len(),
{
    let mut j = i;
    let _n = s.len();
    loop
        invariant
            i <= j <= s@.len(),
            s@.len() <= usize::MAX,
            spec_escaped(s@, i as int) == spec_escaped(s@, j as int),
        decreases s@.len() - j,
    {
        if j >= s.len() {
            return Err(ParseError::Incomplete(Needed::Unknown));
        }
        let b = s[j];
        if class_test(Class::QuotedText, b) {
            let e = scan(s, j, Class::QuotedText);
            if e == s.len() {
                return Err(incomplete_of(1));
            }
            proof {
                lemma_scan_end(s@, j as int, Class::QuotedText);
            }
            j = e;
        } else if b == 0x5c {
            if j + 1 >= s.len() {
                return Err(incomplete_of(1));
            }
            let c = s[j + 1];
            if c == 0x5c || c == 0x22 {
                if j + 2 >= s.len() {
                    return Err(ParseError::Incomplete(Needed::Unknown));
                }
                j = j + 2;
            } else {
                return Err(ParseError::Error);
            }
        } else {
            return Ok(j);
        }
    }
}

/// quoted = DQUOTE *QUOTED-CHAR DQUOTE; the value is the content with its escapes.
pub open spec fn spec_quoted(s: Seq<u8>, i: int) -> SRes<Seq<u8>> {
    match spec_byte(s, i, 0x22) {
        Err(x) => Err(x),
        Ok(a) => match spec_escaped(s, a) {
            Err(x) => Err(x),
            Ok(e) => match spec_byte(s, e, 0x22) {
                Err(x) => Err(x),
                Ok(f) => Ok((f, s.subrange(a, e))),
            },
        },
    }
}

pub fn p_quoted(s: &[u8], i: usize) -> (r: PRes<Vec<u8>>)
    requires
        i <= s@.len(),
    ensures
        dv(r) == spec_quoted(s@, i as int),
        wf(r, s@, i as int),
{
    let a = match byte(s, i, 0x22) {
        Ok(a) => a,
        Err(x) => return Err(x),
    };
    let e = match escaped_end(s, a) {
        Ok(e) => e,
        Err(x) => return Err(x),
    };
    let f = match byte(s, e, 0x22) {
        Ok(f) => f,
        Err(x) => return Err(x),
    };
    Ok((f, copy_bytes(s, a, e)))
}

// ----- literal -----

/// literal = "{" number "}" CRLF *CHAR8, the number counting the bytes that follow.
pub open spec fn spec_literal(s: Seq<u8>, i: int) -> SRes<Seq<u8>> {
    match spec_kw(s, i, Kw::LBrace, false) {
        Err(x) => Err(x),
        Ok(a) => match spec_number(s, a) {
            Err(x) => Err(x),
            Ok((b, n)) => match spec_kw(s, b, Kw::RBrace, false) {
                Err(x) => Err(x),
                Ok(c) => match spec_kw(s, c, Kw::Crlf, false) {
                    Err(x) => Err(x),
                    Ok(d) => if s.len() - d >= n {
                        Ok((d + n, s.subrange(d, d + n)))
                    } else {
                        Err(incomplete(n - (s.len() - d)))
                    },
                },
            },
        },
    }
}

pub fn p_literal(s: &[u8], i: usize) -> (r: PRes<Vec<u8>>)
    requires
        i <= s@.len(),
    ensures
        dv(r) == spec_literal(s@, i as int),
        wf(r, s@, i as int),
{
    let a = match tag_kw(s, i, Kw::LBrace, false) {
        Ok(a) => a,
        Err(x) => return Err(x),
    };
    let (b, n) = match p_number(s, a) {
        Ok(v) => v,
        Err(x) => return Err(x),
    };
    let c = match tag_kw(s, b, Kw::RBrace, false) {
        Ok(c) => c,
        Err(x) => return Err(x),
    };
    let d = match tag_kw(s, c, Kw::Crlf, false) {
        Ok(d) => d,
        Err(x) => return Err(x),
    };
    let n = n as usize;
    if s.len() - d >= n {
        Ok((d + n, copy_bytes(s, d, d + n)))
    } else {
        Err(incomplete_of(n - (s.len() - d)))
    }
}

// ----- string, astring, nstring -----

/// string = quoted / literal
pub open spec fn spec_string(s: Seq<u8>, i: int) -> SRes<Seq<u8>> {
    match spec_quoted(s, i) {
        Err(ParseError::Error) => spec_literal(s, i),
        r => r,
    }
}

pub fn p_string(s: &[u8], i: usize) -> (r: PRes<Vec<u8>>)
    requires
        i <= s@.len(),
    ensures
        dv(r) == spec_string(s@, i as int),
        wf(r, s@, i as int),
{
    match p_quoted(s, i) {
        Err(ParseError::Error) => p_literal(s, i),
        r => r,
    }
}

/// astring = 1*ASTRING-CHAR / string
pub open spec fn spec_astring(s: Seq<u8>, i: int) -> SRes<Seq<u8>> {
    match spec_take_while1(s, i, Class::AString) {
        Ok(e) => Ok((e, s.subrange(i, e))),
        Err(ParseError::Error) => spec_string(s, i),
        Err(x) => Err(x),
    }
}

pub fn p_astring(s: &[u8], i: usize) -> (r: PRes<Vec<u8>>)
    requires
        i <= s@.len(),
    ensures
        dv(r) == spec_astring(s@, i as int),
        wf(r, s@, i as int),
{
    match take_while1(s, i, Class::AString) {
        Ok(e) => Ok((e, copy_bytes(s, i, e))),
        Err(ParseError::Error) => p_string(s, i),
        Err(x) => Err(x),
    }
}

/// astring on complete input: a run of ASTRING-CHAR may end the input.
pub open spec fn spec_astring_c(s: Seq<u8>, i: int) -> SRes<Seq<u8>> {
    match spec_take_while1_complete(s, i, Class::AString) {
        Ok(e) => Ok((e, s.subrange(i, e))),
        Err(ParseError::Error) => spec_string(s, i),
        Err(x) => Err(x),
    }
}

pub fn p_astring_c(s: &[u8], i: usize) -> (r: PRes<Vec<u8>>)
    requires
        i <= s@.len(),
    ensures
        dv(r) == spec_astring_c(s@, i as int),
        wf(r, s@, i as int),
{
    match take_while1_complete(s, i, Class::AString) {
        Ok(e) => Ok((e, copy_bytes(s, i, e))),
        Err(ParseError::Error) => p_string(s, i),
        Err(x) => Err(x),
    }
}

/// nil = "NIL", in any case.
pub open spec fn spec_nil(s: Seq<u8>, i: int) -> SPos {
    spec_kw(s, i, Kw::Nil, true)
}

pub fn p_nil(s: &[u8], i: usize) -> (r: PPos)
    requires
        i <= s@.len(),
    ensures
        pv(r) == spec_nil(s@, i as int),
        wfp(r, s@, i as int),
{
    tag_kw(s, i, Kw::Nil, true)
}

/// nstring = nil / string
#[verifier::opaque]
pub open spec fn spec_nstring(s: Seq<u8>, i: int) -> SRes<Option<Seq<u8>>> {
    match spec_nil(s, i) {
        Ok(e) => Ok((e, None)),
        Err(ParseError::Error) => match spec_string(s, i) {
            Ok((e, v)) => Ok((e, Some(v))),
            Err(x) => Err(x),
        },
        Err(x) => Err(x),
    }
}

pub fn p_nstring(s: &[u8], i: usize) -> (r: PRes<Option<Vec<u8>>>)
    requires
        i <= s@.len(),
    ensures
        dv(r) == spec_nstring(s@, i as int),
        wf(r, s@, i as int),
{
    reveal(spec_nstring);
    match p_nil(s, i) {
        Ok(e) => Ok((e, None)),
        Err(ParseError::Error) => match p_string(s, i) {
            Ok((e, v)) => Ok((e, Some(v))),
            Err(x) => Err(x),
        },
        Err(x) => Err(x),
    }
}

// ----- the same, decoded as UTF-8 -----

/// A parse whose bytes must be valid UTF-8, decoded.
pub open spec fn as_utf8(r: SRes<Seq<u8>>) -> SRes<Seq<char>> {
    match r {
        Ok((e, b)) => match utf8_opt(b) {
            Some(c) => Ok((e, c)),
            None => Err(ParseError::Error),
        },
        Err(x) => Err(x),
    }
}

pub fn to_utf8(r: PRes<Vec<u8>>) -> (q: PRes<String>)
    ensures
        dv(q) == as_utf8(dv(r)),
        r matches Ok((j, _)) ==> q matches Ok((k, _)) ==> k == j,
        r is Err ==> q is Err,
{
    match r {
        Ok((e, v)) => {
            let n = v.len();
            match utf8_string(v.as_slice(), 0, n) {
                Some(st) => {
                    proof {
                        assert(v@.subrange(0, n as int) =~= v@);
                        assert(v.deep_view() =~= v@);
                    }
                    Ok((e, st))
                },
                None => {
                    proof {
                        assert(v@.subrange(0, n as int) =~= v@);
                        assert(v.deep_view() =~= v@);
                    }
                    Err(ParseError::Error)
                },
            }
        },
        Err(x) => Err(x),
    }
}

pub open spec fn spec_string_utf8(s: Seq<u8>, i: int) -> SRes<Seq<char>> {
    as_utf8(spec_string(s, i))
}

pub open spec fn spec_quoted_utf8(s: Seq<u8>, i: int) -> SRes<Seq<char>> {
    as_utf8(spec_quoted(s, i))
}

pub open spec fn spec_astring_utf8(s: Seq<u8>, i: int) -> SRes<Seq<char>> {
    as_utf8(spec_astring(s, i))
}

pub fn p_string_utf8(s: &[u8], i: usize) -> (r: PRes<String>)
    requires
        i <= s@.len(),
    ensures
        dv(r) == spec_string_utf8(s@, i as int),
        wf(r, s@, i as int),
{
    to_utf8(p_string(s, i))
}

pub fn p_quoted_utf8(s: &[u8], i: usize) -> (r: PRes<String>)
    requires
        i <= s@.len(),
    ensures
        dv(r) == spec_quoted_utf8(s@, i as int),
        wf(r, s@, i as int),
{
    to_utf8(p_quoted(s, i))
}

pub fn p_astring_utf8(s: &[u8], i: usize) -> (r: PRes<String>)
    requires
        i <= s@.len(),
    ensures
        dv(r) == spec_astring_utf8(s@, i as int),
        wf(r, s@, i as int),
{
    to_utf8(p_astring(s, i))
}

/// nstring, decoded: nil / string as UTF-8.
pub open spec fn spec_nstring_utf8(s: Seq<u8>, i: int) -> SRes<Option<Seq<char>>> {
    match spec_nil(s, i) {
        Ok(e) => Ok((e, None)),
        Err(ParseError::Error) => match spec_string_utf8(s, i) {
            Ok((e, v)) => Ok((e, Some(v))),
            Err(x) => Err(x),
        },
        Err(x) => Err(x),
    }
}

pub fn p_nstring_utf8(s: &[u8], i: usize) -> (r: PRes<Option<String>>)
    requires
        i <= s@.len(),
    ensures
        dv(r) == spec_nstring_utf8(s@, i as int),
        wf(r, s@, i as int),
{
    match p_nil(s, i) {
        Ok(e) => Ok((e, None)),
        Err(ParseError::Error) => match p_string_utf8(s, i) {
            Ok((e, v)) => Ok((e, Some(v))),
            Err(x) => Err(x),
        },
        Err(x) => Err(x),
    }
}

// ----- atom, text -----

/// A run of bytes of class `c` decoded as UTF-8, as `map_res(take_while1(..), from_utf8)` reads it.
pub open spec fn spec_run1_utf8(s: Seq<u8>, i: int, c: Class) -> SRes<Seq<char>> {
    match spec_take_while1(s, i, c) {
        Ok(e) => as_utf8(Ok((e, s.subrange(i, e)))),
        Err(x) => Err(x),
    }
}

pub fn p_run1_utf8(s: &[u8], i: usize, c: Class) -> (r: PRes<String>)
    requires
        i <= s@.len(),
    ensures
        dv(r) == spec_run1_utf8(s@, i as int, c),
        wf(r, s@, i as int),
{
    match take_while1(s, i, c) {
        Ok(e) => to_utf8(Ok((e, copy_bytes(s, i, e)))),
        Err(x) => Err(x),
    }
}

/// atom = 1*ATOM-CHAR
pub open spec fn spec_atom(s: Seq<u8>, i: int) -> SRes<Seq<char>> {
    spec_run1_utf8(s, i, Class::Atom)
}

pub fn p_atom(s: &[u8], i: usize) -> (r: PRes<String>)
    requires
        i <= s@.len(),
    ensures
        dv(r) == spec_atom(s@, i as int),
        wf(r, s@, i as int),
{
    p_run1_utf8(s, i, Class::Atom)
}

/// text = *TEXT-CHAR, which must stop before the end of the input.
pub open spec fn spec_text(s: Seq<u8>, i: int) -> SRes<Seq<char>> {
    match spec_take_while(s, i, Class::Text) {
        Ok(e) => as_utf8(Ok((e, s.subrange(i, e)))),
        Err(x) => Err(x),
    }
}

pub fn p_text(s: &[u8], i: usize) -> (r: PRes<String>)
    requires
        i <= s@.len(),
    ensures
        dv(r) == spec_text(s@, i as int),
        wf(r, s@, i as int),
{
    match take_while(s, i, Class::Text) {
        Ok(e) => to_utf8(Ok((e, copy_bytes(s, i, e)))),
        Err(x) => Err(x),
    }
}

// ----- sequence sets -----

/// seq-range = seq-number ":" seq-number, as its two bounds.
pub open spec fn spec_sequence_range(s: Seq<u8>, i: int) -> SRes<(u32, u32)> {
    match spec_number(s, i) {
        Err(x) => Err(x),
        Ok((a, x)) => match spec_kw(s, a, Kw::Colon, false) {
            Err(e) => Err(e),
            Ok(b) => match spec_number(s, b) {
                Err(e) => Err(e),
                Ok((c, y)) => Ok((c, (x, y))),
            },
        },
    }
}

pub fn p_sequence_range(s: &[u8], i: usize) -> (r: PRes<(u32, u32)>)
    requires
        i <= s@.len(),
    ensures
        dv(r) == spec_sequence_range(s@, i as int),
        wf(r, s@, i as int),
{
    let (a, x) = match p_number(s, i) {
        Ok(v) => v,
        Err(e) => return Err(e),
    };
    let b = match tag_kw(s, a, Kw::Colon, false) {
        Ok(b) => b,
        Err(e) => return Err(e),
    };
    let (c, y) = match p_number(s, b) {
        Ok(v) => v,
        Err(e) => return Err(e),
    };
    Ok((c, (x, y)))
}

/// A range, or a single number `n` as the range `n:n`.
pub open spec fn spec_sequence_item(s: Seq<u8>, i: int) -> SRes<(u32, u32)> {
    match spec_sequence_range(s, i) {
        Err(ParseError::Error) => match spec_number(s, i) {
            Ok((e, n)) => Ok((e, (n, n))),
            Err(x) => Err(x),
        },
        r => r,
    }
}

pub fn p_sequence_item(s: &[u8], i: usize) -> (r: PRes<(u32, u32)>)
    requires
        i <= s@.len(),
    ensures
        dv(r) == spec_sequence_item(s@, i as int),
        wf(r, s@, i as int),
{
    match p_sequence_range(s, i) {
        Err(ParseError::Error) => match p_number(s, i) {
            Ok((e, n)) => Ok((e, (n, n))),
            Err(x) => Err(x),
        },
        r => r,
    }
}

pub open spec fn g_sequence_item() -> SpecParser<(u32, u32)> {
    |s: Seq<u8>, i: int| spec_sequence_item(s, i)
}

pub open spec fn g_comma() -> SpecRecognizer {
    |s: Seq<u8>, i: int| spec_kw(s, i, Kw::Comma, false)
}

/// sequence-set = (seq-number / seq-range) *("," sequence-set)
pub open spec fn spec_sequence_set(s: Seq<u8>, i: int) -> SRes<Seq<(u32, u32)>> {
    spec_sep_list1(s, i, g_comma(), g_sequence_item())
}

pub fn p_sequence_set(s: &[u8], i: usize) -> (r: PRes<Vec<(u32, u32)>>)
    requires
        i <= s@.len(),
    ensures
        dv(r) == spec_sequence_set(s@, i as int),
        wf(r, s@, i as int),
{
    let sep = |t: &[u8], j: usize| -> (q: PPos)
        requires
            j <= t@.len(),
        ensures
            pv(q) == spec_kw(t@, j as int, Kw::Comma, false),
            wfp(q, t@, j as int),
        { tag_kw(t, j, Kw::Comma, false) };
    let item = |t: &[u8], j: usize| -> (q: PRes<(u32, u32)>)
        requires
            j <= t@.len(),
        ensures
            dv(q) == spec_sequence_item(t@, j as int),
            wf(q, t@, j as int),
        { p_sequence_item(t, j) };
    sep_list1(s, i, sep, Ghost(g_comma()), item, Ghost(g_sequence_item()))
}


// ----- the public parsers, at the start of an input -----

/// The ranges of a sequence set, from their bounds.
pub fn to_ranges(v: &Vec<(u32, u32)>) -> (r: Vec<RangeInclusive<u32>>)
    ensures
        ranges_view(r@) == v@,
{
    let mut out: Vec<RangeInclusive<u32>> = Vec::new();
    let mut k: usize = 0;
    while k < v.len()
        invariant
            k <= v@.len(),
            out@.len() == k,
            ranges_view(out@) == v@.take(k as int),
        decreases v@.len() - k,
    {
        let (a, b) = v[k];
        let ghost prev = out@;
        let r = RangeInclusive::new(a, b);
        out.push(r);
        proof {
            assert(out@ == prev.push(r));
            assert(ranges_view(out@)[k as int] == v@[k as int]);
            assert forall|j: int| 0 <= j < k implies ranges_view(out@)[j] == ranges_view(prev)[j] by {
                assert(out@[j] == prev[j]);
            }
            assert(ranges_view(out@) =~= v@.take(k + 1));
        }
        k = k + 1;
    }
    assert(v@.take(v@.len() as int) =~= v@);
    out
}

/// The number at the start of `i`.
pub fn number(i: &[u8]) -> (r: IResult<'_, u32>)
    ensures
        iresult_is(i@, r, spec_number(i@, 0)),
{
    finish(i, p_number(i, 0))
}

/// The 64-bit number at the start of `i`.
pub fn number_64(i: &[u8]) -> (r: IResult<'_, u64>)
    ensures
        iresult_is(i@, r, spec_number_64(i@, 0)),
{
    finish(i, p_number_64(i, 0))
}

/// The range at the start of `i`.
pub fn sequence_range(i: &[u8]) -> (r: IResult<'_, RangeInclusive<u32>>)
    ensures
        match (r, spec_sequence_range(i@, 0)) {
            (Ok((rest, v)), Ok((j, (a, b)))) => 0 <= j <= i@.len() && rest@ == i@.subrange(
                j,
                i@.len() as int,
            ) && v@.start == a && v@.end == b,
            (Err(e1), Err(e2)) => e1 == e2,
            _ => false,
        },
{
    match finish(i, p_sequence_range(i, 0)) {
        Ok((rest, (a, b))) => Ok((rest, RangeInclusive::new(a, b))),
        Err(x) => Err(x),
    }
}

/// The sequence set at the start of `i`.
pub fn sequence_set(i: &[u8]) -> (r: IResult<'_, Vec<RangeInclusive<u32>>>)
    ensures
        match (r, spec_sequence_set(i@, 0)) {
            (Ok((rest, v)), Ok((j, w))) => 0 <= j <= i@.len() && rest@ == i@.subrange(
                j,
                i@.len() as int,
            ) && ranges_view(v@) == w,
            (Err(e1), Err(e2)) => e1 == e2,
            _ => false,
        },
{
    match finish(i, p_sequence_set(i, 0)) {
        Ok((rest, v)) => {
            proof {
                assert(v.deep_view() =~= v@);
            }
            Ok((rest, to_ranges(&v)))
        },
        Err(x) => Err(x),
    }
}

/// The string (quoted or literal) at the start of `i`.
pub fn string(i: &[u8]) -> (r: IResult<'_, Vec<u8>>)
    ensures
        iresult_is(i@, r, spec_string(i@, 0)),
{
    finish(i, p_string(i, 0))
}

/// The string at the start of `i`, as UTF-8 text.
pub fn string_utf8(i: &[u8]) -> (r: IResult<'_, String>)
    ensures
        iresult_is(i@, r, spec_string_utf8(i@, 0)),
{
    finish(i, p_string_utf8(i, 0))
}

/// The quoted string at the start of `i`: the bytes between the quotes, escapes as
/// they stand.
pub fn quoted(i: &[u8]) -> (r: IResult<'_, Vec<u8>>)
    ensures
        iresult_is(i@, r, spec_quoted(i@, 0)),
{
    finish(i, p_quoted(i, 0))
}

/// The quoted string at the start of `i`, as UTF-8 text.
pub fn quoted_utf8(i: &[u8]) -> (r: IResult<'_, String>)
    ensures
        iresult_is(i@, r, spec_quoted_utf8(i@, 0)),
{
    finish(i, p_quoted_utf8(i, 0))
}

/// The literal at the start of `i`: its data.
pub fn literal(i: &[u8]) -> (r: IResult<'_, Vec<u8>>)
    ensures
        iresult_is(i@, r, spec_literal(i@, 0)),
{
    finish(i, p_literal(i, 0))
}

/// The astring at the start of `i`.
pub fn astring(i: &[u8]) -> (r: IResult<'_, Vec<u8>>)
    ensures
        iresult_is(i@, r, spec_astring(i@, 0)),
{
    finish(i, p_astring(i, 0))
}

/// The astring at the start of `i`, as UTF-8 text.
pub fn astring_utf8(i: &[u8]) -> (r: IResult<'_, String>)
    ensures
        iresult_is(i@, r, spec_astring_utf8(i@, 0)),
{
    finish(i, p_astring_utf8(i, 0))
}

/// The atom at the start of `i`.
pub fn atom(i: &[u8]) -> (r: IResult<'_, String>)
    ensures
        iresult_is(i@, r, spec_atom(i@, 0)),
{
    finish(i, p_atom(i, 0))
}

/// The nstring at the start of `i`: `None` for NIL.
pub fn nstring(i: &[u8]) -> (r: IResult<'_, Option<Vec<u8>>>)
    ensures
        iresult_is(i@, r, spec_nstring(i@, 0)),
{
    finish(i, p_nstring(i, 0))
}

/// The nstring at the start of `i`, as UTF-8 text.
pub fn nstring_utf8(i: &[u8]) -> (r: IResult<'_, Option<String>>)
    ensures
        iresult_is(i@, r, spec_nstring_utf8(i@, 0)),
{
    finish(i, p_nstring_utf8(i, 0))
}

/// NIL at the start of `i`, in any case: the bytes that stand for it.
pub fn nil(i: &[u8]) -> (r: IResult<'_, Vec<u8>>)
    ensures
        match (r, spec_nil(i@, 0)) {
            (Ok((rest, v)), Ok(j)) => 0 <= j <= i@.len() && rest@ == i@.subrange(j, i@.len() as int)
                && v@ == i@.subrange(0, j),
            (Err(e1), Err(e2)) => e1 == e2,
            _ => false,
        },
{
    match p_nil(i, 0) {
        Ok(e) => Ok((vstd::slice::slice_subrange(i, e, i.len()), copy_bytes(i, 0, e))),
        Err(x) => Err(x),
    }
}

/// The text at the start of `i`, up to CR or LF.
pub fn text(i: &[u8]) -> (r: IResult<'_, String>)
    ensures
        iresult_is(i@, r, spec_text(i@, 0)),
{
    finish(i, p_text(i, 0))
}

} // verus!
