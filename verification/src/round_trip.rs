//! What the client side writes, the parser reads back: numbers, quoted strings and
//! command tags.

use vstd::prelude::*;
use vstd::arithmetic::div_mod::lemma_fundamental_div_mod;
use vstd::utf8::{encode_utf8, encode_utf8_decode_utf8, encode_utf8_valid_utf8};
use crate::builders::command::{is_text, is_text_char, spec_decimal, spec_escape, spec_quote};
use crate::client::{lemma_digit_char, spec_request_id, spec_tag_of};
use crate::parser::base::{
    byte_match, class_has, kw_bytes, scan_end, spec_byte, spec_take_while1, utf8_opt, Class, Kw,
    ParseError,
};
use crate::parser::response::{spec_continue_req, spec_response, spec_response_data, spec_tag};
use crate::parser::tokens::{
    dec_val, spec_escaped, spec_number, spec_number_64, spec_quoted, spec_quoted_utf8,
};
use crate::types::model::SpecResponse;

verus! {

/// A run of bytes of class `c` from `i` up to `j`, where a byte outside `c` stands,
/// is what a scan from `i` finds.
pub proof fn lemma_scan_run(s: Seq<u8>, i: int, j: int, c: Class)
    requires
        0 <= i <= j < s.len(),
        forall|k: int| i <= k < j ==> class_has(c, #[trigger] s[k]),
        !class_has(c, s[j]),
    ensures
        scan_end(s, i, c) == j,
    decreases j - i,
{
    if i < j {
        lemma_scan_run(s, i + 1, j, c);
    }
}

/// The digits of a number are decimal digits, and their value is the number.
pub proof fn lemma_decimal_value(n: nat)
    ensures
        dec_val(spec_decimal(n)) == n,
        spec_decimal(n).len() >= 1,
        forall|k: int| 0 <= k < spec_decimal(n).len() ==> class_has(Class::Digit, #[trigger] spec_decimal(n)[k]),
    decreases n,
{
    let d = spec_decimal(n);
    if n < 10 {
        assert(d.drop_last().len() == 0);
        assert(d.last() == 48 + n);
        assert(dec_val(d.drop_last()) == 0);
        assert(dec_val(d) == dec_val(d.drop_last()) * 10 + (d.last() - 48) as nat);
    } else {
        lemma_decimal_value(n / 10);
        assert(d.drop_last() =~= spec_decimal(n / 10));
        assert(d.last() == 48 + n % 10);
        lemma_fundamental_div_mod(n as int, 10);
        assert(dec_val(d) == dec_val(d.drop_last()) * 10 + (d.last() - 48) as nat);
        assert(dec_val(d) == (n / 10) * 10 + n % 10);
        assert forall|k: int| 0 <= k < d.len() implies class_has(Class::Digit, #[trigger] d[k]) by {
            if k < d.len() - 1 {
                assert(d[k] == spec_decimal(n / 10)[k]);
            }
        }
    }
}

/// The parser reads back as a number the digits that the builders write for it,
/// wherever they stand and a byte that is no digit follows them.
pub proof fn lemma_number_reads_decimal(pre: Seq<u8>, n: u64, rest: Seq<u8>)
    requires
        rest.len() > 0,
        !class_has(Class::Digit, rest[0]),
    ensures
        spec_number_64(pre + spec_decimal(n as nat) + rest, pre.len() as int)
            == Ok::<(int, u64), ParseError>((pre.len() as int + spec_decimal(n as nat).len(), n)),
        n <= u32::MAX ==> spec_number(pre + spec_decimal(n as nat) + rest, pre.len() as int)
            == Ok::<(int, u32), ParseError>((pre.len() as int + spec_decimal(n as nat).len(), n as u32)),
{
    let d = spec_decimal(n as nat);
    let s = pre + d + rest;
    let i = pre.len() as int;
    let e = i + d.len();
    lemma_decimal_value(n as nat);
    assert forall|k: int| i <= k < e implies class_has(Class::Digit, #[trigger] s[k]) by {
        assert(s[k] == d[k - i]);
    }
    assert(s[e] == rest[0]);
    lemma_scan_run(s, i, e, Class::Digit);
    assert(s.subrange(i, e) =~= d);
    assert(spec_take_while1(s, i, Class::Digit) == Ok::<int, ParseError>(e));
}

// ----- quoted strings -----

/// The bytes of 7-bit text.
pub open spec fn ascii_bytes(t: Seq<char>) -> Seq<u8> {
    Seq::new(t.len(), |k: int| (t[k] as u32) as u8)
}

/// A byte as a quoted string holds it: quoted-specials take a backslash.
pub open spec fn escape_byte(b: u8) -> Seq<u8> {
    if b == 0x5c || b == 0x22 {
        seq![0x5cu8, b]
    } else {
        seq![b]
    }
}

/// The bytes of a quoted string that stands for `b`, without the quotes.
pub open spec fn quote_bytes(b: Seq<u8>) -> Seq<u8>
    decreases b.len(),
{
    if b.len() == 0 {
        Seq::empty()
    } else {
        quote_bytes(b.drop_last()) + escape_byte(b.last())
    }
}

pub proof fn lemma_encode_ascii(t: Seq<char>)
    requires
        forall|k: int| 0 <= k < t.len() ==> (#[trigger] t[k] as u32) <= 0x7f,
    ensures
        encode_utf8(t) =~= ascii_bytes(t),
    decreases t.len(),
{
    if t.len() > 0 {
        lemma_encode_ascii(t.drop_first());
        let c = t[0] as u32;
        assert((c & 0x7f) as u8 == c as u8) by (bit_vector)
            requires
                c <= 0x7f,
        ;
        assert(ascii_bytes(t) =~= seq![c as u8] + ascii_bytes(t.drop_first()));
    }
}

proof fn lemma_quote_ascii(t: Seq<char>)
    requires
        forall|k: int| 0 <= k < t.len() ==> is_text_char(#[trigger] t[k]),
    ensures
        ascii_bytes(spec_quote(t)) =~= quote_bytes(ascii_bytes(t)),
        forall|k: int| 0 <= k < spec_quote(t).len() ==> (#[trigger] spec_quote(t)[k] as u32) <= 0x7f,
    decreases t.len(),
{
    if t.len() > 0 {
        let p = t.drop_last();
        let c = t.last();
        assert(is_text_char(t[t.len() - 1]));
        lemma_quote_ascii(p);
        assert(ascii_bytes(t).drop_last() =~= ascii_bytes(p));
        assert(ascii_bytes(spec_quote(t)) =~= ascii_bytes(spec_quote(p)) + ascii_bytes(spec_escape(c)));
        let u = c as u32;
        assert(((u as u8) as u32) == u) by (bit_vector)
            requires
                u <= 0x7f,
        ;
        assert('\\' as u32 == 0x5c);
        assert('"' as u32 == 0x22);
        vstd::utf8::char_u32_cast(c, u);
        if u == 0x5c {
            assert(c == (0x5cu32 as char));
            vstd::utf8::char_u32_cast('\\', 0x5c);
        }
        if u == 0x22 {
            vstd::utf8::char_u32_cast('"', 0x22);
        }
        assert(ascii_bytes(spec_escape(c)) =~= escape_byte(u as u8));
        let q = spec_quote(t);
        assert forall|k: int| 0 <= k < q.len() implies (#[trigger] q[k] as u32) <= 0x7f by {
            if k < spec_quote(p).len() {
                assert(q[k] == spec_quote(p)[k]);
            } else {
                assert(q[k] == spec_escape(c)[k - spec_quote(p).len()]);
            }
        }
    }
}

/// The quoted form of the first `k` bytes begins the quoted form of them all.
proof fn lemma_quote_prefix(b: Seq<u8>, k: int)
    requires
        0 <= k <= b.len(),
    ensures
        quote_bytes(b.take(k)).len() <= quote_bytes(b).len(),
        quote_bytes(b).take(quote_bytes(b.take(k)).len() as int) =~= quote_bytes(b.take(k)),
    decreases b.len(),
{
    if k == b.len() {
        assert(b.take(k) =~= b);
    } else {
        let p = b.drop_last();
        assert(p.take(k) =~= b.take(k));
        lemma_quote_prefix(p, k);
    }
}

/// One more byte quoted: its escape follows the quoted form of those before it.
proof fn lemma_quote_step(b: Seq<u8>, k: int)
    requires
        0 <= k < b.len(),
    ensures
        quote_bytes(b.take(k + 1)) == quote_bytes(b.take(k)) + escape_byte(b[k]),
{
    assert(b.take(k + 1).drop_last() =~= b.take(k));
}

/// A plain byte of quoted text does not change where the escaped text ends.
proof fn lemma_escaped_plain(s: Seq<u8>, p: int)
    requires
        0 <= p,
        p + 1 < s.len(),
        class_has(Class::QuotedText, s[p]),
    ensures
        spec_escaped(s, p) == spec_escaped(s, p + 1),
{
    assert(scan_end(s, p, Class::QuotedText) == scan_end(s, p + 1, Class::QuotedText));
}

/// From the quoted form of each prefix of `b` on, the escaped text ends at the
/// closing quote.
proof fn lemma_escaped_from(s: Seq<u8>, o: int, b: Seq<u8>, k: int)
    requires
        0 <= o,
        0 <= k <= b.len(),
        forall|j: int| 0 <= j < b.len() ==> 0x01 <= #[trigger] b[j] <= 0x7f && b[j] != 0x0d && b[j] != 0x0a,
        s.len() >= o + quote_bytes(b).len() as int + 2,
        s.subrange(o, o + quote_bytes(b).len() as int + 2) =~= seq![0x22u8] + quote_bytes(b) + seq![0x22u8],
    ensures
        spec_escaped(s, o + 1 + quote_bytes(b.take(k)).len() as int) == Ok::<int, ParseError>(o + 1 + quote_bytes(b).len() as int),
    decreases b.len() - k,
{
    let q = quote_bytes(b);
    let w = s.subrange(o, o + q.len() as int + 2);
    let p = o + 1 + quote_bytes(b.take(k)).len() as int;
    let e = o + 1 + q.len() as int;
    lemma_quote_prefix(b, k);
    if k == b.len() {
        assert(b.take(k) =~= b);
        assert(s[e] == w[e - o]);
    } else {
        lemma_quote_step(b, k);
        lemma_quote_prefix(b, k + 1);
        lemma_escaped_from(s, o, b, k + 1);
        let qk1 = quote_bytes(b.take(k + 1));
        assert(s[p] == qk1[p - o - 1]) by {
            assert(s[p] == w[p - o]);
            assert(q[p - o - 1] == q.take(qk1.len() as int)[p - o - 1]);
        }
        assert(0x01 <= b[k] <= 0x7f);
        if b[k] == 0x5c || b[k] == 0x22 {
            assert(s[p + 1] == qk1[p - o]) by {
                assert(s[p + 1] == w[p + 1 - o]);
                assert(q[p - o] == q.take(qk1.len() as int)[p - o]);
            }
        } else {
            lemma_escaped_plain(s, p);
        }
    }
}

/// The bytes of the quoted string that the builders write for `t`, quotes included.
pub open spec fn quoted_bytes(t: Seq<char>) -> Seq<u8> {
    seq![0x22u8] + encode_utf8(spec_quote(t)) + seq![0x22u8]
}

/// Wherever it stands, the parser reads back as a quoted string any text that the
/// builders quote (text of TEXT-CHARs, which is what `quoted_string` accepts): the
/// token's value is the quoted text, and read as UTF-8 it is the builder's string.
pub proof fn lemma_quoted_reads_quote_at(pre: Seq<u8>, t: Seq<char>, rest: Seq<u8>)
    requires
        is_text(t),
    ensures
        spec_quoted(pre + quoted_bytes(t) + rest, pre.len() as int)
            == Ok::<(int, Seq<u8>), ParseError>((pre.len() as int + quoted_bytes(t).len(), encode_utf8(spec_quote(t)))),
        spec_quoted_utf8(pre + quoted_bytes(t) + rest, pre.len() as int)
            == Ok::<(int, Seq<char>), ParseError>((pre.len() as int + quoted_bytes(t).len(), spec_quote(t))),
{
    let q8 = encode_utf8(spec_quote(t));
    let s = pre + quoted_bytes(t) + rest;
    let o = pre.len() as int;
    lemma_quote_ascii(t);
    lemma_encode_ascii(spec_quote(t));
    let b = ascii_bytes(t);
    assert forall|j: int| 0 <= j < b.len() implies 0x01 <= #[trigger] b[j] <= 0x7f && b[j] != 0x0d && b[j] != 0x0a by {
        assert(is_text_char(t[j]));
        let u = t[j] as u32;
        assert(((u as u8) as u32) == u) by (bit_vector)
            requires
                u <= 0x7f,
        ;
    }
    assert(q8 =~= quote_bytes(b));
    assert(s.subrange(o, o + q8.len() as int + 2) =~= seq![0x22u8] + quote_bytes(b) + seq![0x22u8]);
    assert(b.take(0) =~= Seq::<u8>::empty());
    lemma_escaped_from(s, o, b, 0);
    assert(s[o] == 0x22u8);
    assert(s[o + q8.len() as int + 1] == 0x22u8);
    assert(spec_byte(s, o, 0x22) == Ok::<int, ParseError>(o + 1));
    assert(s.subrange(o + 1, o + 1 + q8.len() as int) =~= q8);
    broadcast use encode_utf8_valid_utf8, encode_utf8_decode_utf8;
    assert(utf8_opt(q8) == Some(spec_quote(t)));
}

/// The parser reads back as a quoted string any text that the builders quote (text of
/// TEXT-CHARs, which is what `quoted_string` accepts): the token's value is the quoted
/// text, and read as UTF-8 it is the builder's string.
pub proof fn lemma_quoted_reads_quote(t: Seq<char>, rest: Seq<u8>)
    requires
        is_text(t),
    ensures
        spec_quoted(seq![0x22u8] + encode_utf8(spec_quote(t)) + seq![0x22u8] + rest, 0)
            == Ok::<(int, Seq<u8>), ParseError>((encode_utf8(spec_quote(t)).len() as int + 2, encode_utf8(spec_quote(t)))),
        spec_quoted_utf8(seq![0x22u8] + encode_utf8(spec_quote(t)) + seq![0x22u8] + rest, 0)
            == Ok::<(int, Seq<char>), ParseError>((encode_utf8(spec_quote(t)).len() as int + 2, spec_quote(t))),
{
    let empty = Seq::<u8>::empty();
    lemma_quoted_reads_quote_at(empty, t, rest);
    assert(empty + quoted_bytes(t) + rest =~= seq![0x22u8] + encode_utf8(spec_quote(t)) + seq![0x22u8] + rest);
}

// ----- command tags -----

/// The parser reads back, as the tag of a tagged response, the tag that the client
/// gave the command, wherever a space follows it.
pub proof fn lemma_tag_reads_back(n: nat, rest: Seq<u8>)
    ensures
        spec_tag(encode_utf8(spec_tag_of(n)) + seq![0x20u8] + rest, 0)
            == Ok::<(int, Seq<char>), ParseError>((5, spec_tag_of(n))),
        (encode_utf8(spec_tag_of(n)) + seq![0x20u8] + rest)[0] == 0x41u8,
{
    let t = spec_tag_of(n);
    let m = n % 10000;
    lemma_digit_char(m / 1000);
    lemma_digit_char(m / 100 % 10);
    lemma_digit_char(m / 10 % 10);
    lemma_digit_char(m % 10);
    assert(m / 1000 < 10);
    assert('A' as u32 == 0x41);
    assert(forall|k: int| 0 <= k < t.len() ==> (#[trigger] t[k] as u32) <= 0x7f);
    lemma_encode_ascii(t);
    let b = encode_utf8(t);
    let s = b + seq![0x20u8] + rest;
    assert forall|k: int| 0 <= k < 5 implies class_has(Class::Tag, #[trigger] s[k]) by {
        assert(s[k] == b[k]);
        let u = t[k] as u32;
        assert(0x30 <= u <= 0x39 || u == 0x41);
        assert(((u as u8) as u32) == u) by (bit_vector)
            requires
                u <= 0x7f,
        ;
    }
    assert(s[5] == 0x20u8);
    assert(s[0] == b[0]);
    lemma_scan_run(s, 0, 5, Class::Tag);
    assert(s.subrange(0, 5) =~= b);
    broadcast use encode_utf8_valid_utf8, encode_utf8_decode_utf8;
    assert(utf8_opt(b) == Some(t));
}

proof fn lemma_not_continue(s: Seq<u8>)
    requires
        s.len() > 0,
        s[0] == 0x41u8,
    ensures
        spec_continue_req(s, 0) == Err::<(int, SpecResponse), ParseError>(ParseError::Error),
{
    assert(kw_bytes(Kw::Plus)[0] == 0x2bu8);
    assert(!byte_match(s[0], 0x2bu8, false));
}

proof fn lemma_not_data(s: Seq<u8>)
    requires
        s.len() > 0,
        s[0] == 0x41u8,
    ensures
        spec_response_data(s, 0) == Err::<(int, SpecResponse), ParseError>(ParseError::Error),
{
    assert(kw_bytes(Kw::StarSp)[0] == 0x2au8);
    assert(!byte_match(s[0], 0x2au8, false));
}

proof fn lemma_tagged_tag(s: Seq<u8>, t: Seq<char>)
    requires
        s.len() > 0,
        s[0] == 0x41u8,
        spec_tag(s, 0) matches Ok((_, u)) && u == t,
    ensures
        spec_response(s, 0) matches Ok((_, r)) ==> spec_request_id(r) == Some(t),
{
    lemma_not_continue(s);
    lemma_not_data(s);
}

/// A response that the parser reads from bytes that begin with the tag of a command
/// and a space is the tagged response that completes that command.
pub proof fn lemma_tagged_response_completes(n: nat, rest: Seq<u8>)
    ensures
        spec_response(encode_utf8(spec_tag_of(n)) + seq![0x20u8] + rest, 0) matches Ok((_, r))
            ==> spec_request_id(r) == Some(spec_tag_of(n)),
{
    lemma_tag_reads_back(n, rest);
    lemma_tagged_tag(encode_utf8(spec_tag_of(n)) + seq![0x20u8] + rest, spec_tag_of(n));
}

} // verus!
