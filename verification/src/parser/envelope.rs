//! Envelopes and addresses of FETCH responses (RFC 3501 section 7.4.2).

use vstd::prelude::*;
use crate::parser::base::{
    dv, kw_bytes, lemma_kw_reads, lemma_kw_refuses, spec_kw, tag_kw, wf, Kw, PRes, ParseError,
    SRes,
};
use vstd::utf8::encode_utf8;
use crate::builders::command::{is_text, spec_quote};
use crate::round_trip::{ascii_bytes, lemma_quoted_reads_quote_at, quoted_bytes};
use crate::parser::combinators::lemma_prepend_empty;
use crate::parser::combinators::{
    many1, opt_byte, paren_delimited, spec_many0, spec_many1, spec_opt_byte, spec_paren_delimited, SpecParser,
};
use crate::parser::tokens::{p_nil, p_nstring, spec_nil, spec_nstring};
use crate::types::{Address, Envelope};
use crate::types::model::{Bytes, SpecAddress, SpecEnvelope};

verus! {

/// nstring SP, as a step of a longer sequence.
pub open spec fn spec_nstring_sp(s: Seq<u8>, i: int) -> SRes<Option<Bytes>> {
    match spec_nstring(s, i) {
        Err(x) => Err(x),
        Ok((a, v)) => match spec_kw(s, a, Kw::Sp, false) {
            Err(x) => Err(x),
            Ok(b) => Ok((b, v)),
        },
    }
}

fn p_nstring_sp(s: &[u8], i: usize) -> (r: PRes<Option<Vec<u8>>>)
    requires
        i <= s@.len(),
    ensures
        dv(r) == spec_nstring_sp(s@, i as int),
        wf(r, s@, i as int),
{
    let (a, v) = match p_nstring(s, i) {
        Ok(v) => v,
        Err(x) => return Err(x),
    };
    match tag_kw(s, a, Kw::Sp, false) {
        Err(x) => Err(x),
        Ok(b) => Ok((b, v)),
    }
}

/// The inside of an address: name SP adl SP mailbox SP host.
pub open spec fn spec_address_fields(s: Seq<u8>, i: int) -> SRes<SpecAddress> {
    match spec_nstring_sp(s, i) {
        Err(x) => Err(x),
        Ok((a, name)) => match spec_nstring_sp(s, a) {
            Err(x) => Err(x),
            Ok((b, adl)) => match spec_nstring_sp(s, b) {
                Err(x) => Err(x),
                Ok((c, mailbox)) => match spec_nstring(s, c) {
                    Err(x) => Err(x),
                    Ok((e, host)) => Ok((e, SpecAddress { name, adl, mailbox, host })),
                },
            },
        },
    }
}

fn p_address_fields(s: &[u8], i: usize) -> (r: PRes<Address>)
    requires
        i <= s@.len(),
    ensures
        dv(r) == spec_address_fields(s@, i as int),
        wf(r, s@, i as int),
{
    let (a, name) = match p_nstring_sp(s, i) {
        Ok(v) => v,
        Err(x) => return Err(x),
    };
    let (b, adl) = match p_nstring_sp(s, a) {
        Ok(v) => v,
        Err(x) => return Err(x),
    };
    let (c, mailbox) = match p_nstring_sp(s, b) {
        Ok(v) => v,
        Err(x) => return Err(x),
    };
    match p_nstring(s, c) {
        Err(x) => Err(x),
        Ok((e, host)) => Ok((e, Address { name, adl, mailbox, host })),
    }
}

pub open spec fn g_address_fields() -> SpecParser<SpecAddress> {
    |s: Seq<u8>, i: int| spec_address_fields(s, i)
}

/// address = "(" addr-name SP addr-adl SP addr-mailbox SP addr-host ")"
pub open spec fn spec_address(s: Seq<u8>, i: int) -> SRes<SpecAddress> {
    spec_paren_delimited(s, i, g_address_fields())
}

proof fn lemma_nstring_quoted(pre: Seq<u8>, t: Seq<char>, rest: Seq<u8>)
    requires
        is_text(t),
    ensures
        spec_nstring(pre + quoted_bytes(t) + rest, pre.len() as int) == Ok::<(int, Option<Bytes>), ParseError>(
            (pre.len() as int + quoted_bytes(t).len(), Some(encode_utf8(spec_quote(t)))),
        ),
{
    reveal(spec_nstring);
    let s = pre + quoted_bytes(t) + rest;
    lemma_quoted_reads_quote_at(pre, t, rest);
    assert(s[pre.len() as int] == 0x22u8);
    lemma_kw_refuses(s, pre.len() as int, Kw::Nil, true, 0);
}

proof fn lemma_space_at(s: Seq<u8>, i: int)
    requires
        0 <= i < s.len(),
        s[i] == 0x20u8,
    ensures
        spec_kw(s, i, Kw::Sp, false) == Ok::<int, ParseError>(i + 1),
{
    assert(kw_bytes(Kw::Sp) =~= seq![0x20u8]);
    assert(s.subrange(i, i + 1) =~= seq![0x20u8]);
    lemma_kw_reads(s, i, Kw::Sp, false);
}

proof fn lemma_address_from_parts(
    s: Seq<u8>,
    e1: int,
    e2: int,
    e3: int,
    e4: int,
    v1: Option<Bytes>,
    v2: Option<Bytes>,
    v3: Option<Bytes>,
    v4: Option<Bytes>,
)
    requires
        0 < e1 < e2 < e3 < e4 < s.len(),
        s[0] == 0x28u8,
        spec_nstring(s, 1) == Ok::<(int, Option<Bytes>), ParseError>((e1, v1)),
        spec_kw(s, e1, Kw::Sp, false) == Ok::<int, ParseError>(e1 + 1),
        spec_nstring(s, e1 + 1) == Ok::<(int, Option<Bytes>), ParseError>((e2, v2)),
        spec_kw(s, e2, Kw::Sp, false) == Ok::<int, ParseError>(e2 + 1),
        spec_nstring(s, e2 + 1) == Ok::<(int, Option<Bytes>), ParseError>((e3, v3)),
        spec_kw(s, e3, Kw::Sp, false) == Ok::<int, ParseError>(e3 + 1),
        spec_nstring(s, e3 + 1) == Ok::<(int, Option<Bytes>), ParseError>((e4, v4)),
        s[e4] == 0x29u8,
    ensures
        spec_address(s, 0) == Ok::<(int, SpecAddress), ParseError>(
            (e4 + 1, SpecAddress { name: v1, adl: v2, mailbox: v3, host: v4 }),
        ),
{
    assert(spec_address_fields(s, 1) == Ok::<(int, SpecAddress), ParseError>(
        (e4, SpecAddress { name: v1, adl: v2, mailbox: v3, host: v4 }),
    ));
}

/// The bytes of an address of four quoted strings.
pub open spec fn quoted_address_bytes(n: Seq<char>, a: Seq<char>, m: Seq<char>, h: Seq<char>) -> Seq<u8> {
    seq![0x28u8] + quoted_bytes(n) + seq![0x20u8] + quoted_bytes(a) + seq![0x20u8] + quoted_bytes(m)
        + seq![0x20u8] + quoted_bytes(h) + seq![0x29u8]
}

#[verifier::rlimit(100)]
#[verifier::spinoff_prover]
proof fn lemma_address_layout(n: Seq<char>, a: Seq<char>, m: Seq<char>, h: Seq<char>, rest: Seq<u8>)
    requires
        is_text(n),
        is_text(a),
        is_text(m),
        is_text(h),
    ensures
        ({
            let s = quoted_address_bytes(n, a, m, h) + rest;
            let e1 = 1 + quoted_bytes(n).len() as int;
            let e2 = e1 + 1 + quoted_bytes(a).len() as int;
            let e3 = e2 + 1 + quoted_bytes(m).len() as int;
            let e4 = e3 + 1 + quoted_bytes(h).len() as int;
            &&& e4 < s.len()
            &&& s[0] == 0x28u8
            &&& s[e4] == 0x29u8
            &&& spec_nstring(s, 1) == Ok::<(int, Option<Bytes>), ParseError>((e1, Some(encode_utf8(spec_quote(n)))))
            &&& spec_kw(s, e1, Kw::Sp, false) == Ok::<int, ParseError>(e1 + 1)
            &&& spec_nstring(s, e1 + 1) == Ok::<(int, Option<Bytes>), ParseError>((e2, Some(encode_utf8(spec_quote(a)))))
            &&& spec_kw(s, e2, Kw::Sp, false) == Ok::<int, ParseError>(e2 + 1)
            &&& spec_nstring(s, e2 + 1) == Ok::<(int, Option<Bytes>), ParseError>((e3, Some(encode_utf8(spec_quote(m)))))
            &&& spec_kw(s, e3, Kw::Sp, false) == Ok::<int, ParseError>(e3 + 1)
            &&& spec_nstring(s, e3 + 1) == Ok::<(int, Option<Bytes>), ParseError>((e4, Some(encode_utf8(spec_quote(h)))))
        }),
{
    let sp = seq![0x20u8];
    let qn = quoted_bytes(n);
    let qa = quoted_bytes(a);
    let qm = quoted_bytes(m);
    let qh = quoted_bytes(h);
    let close = seq![0x29u8] + rest;
    let s = quoted_address_bytes(n, a, m, h) + rest;
    let p1 = seq![0x28u8];
    let p2 = p1 + qn + sp;
    let p3 = p2 + qa + sp;
    let p4 = p3 + qm + sp;
    assert(s =~= p1 + qn + (sp + qa + sp + qm + sp + qh + close));
    assert(s =~= p2 + qa + (sp + qm + sp + qh + close));
    assert(s =~= p3 + qm + (sp + qh + close));
    assert(s =~= p4 + qh + close);
    lemma_nstring_quoted(p1, n, sp + qa + sp + qm + sp + qh + close);
    lemma_nstring_quoted(p2, a, sp + qm + sp + qh + close);
    lemma_nstring_quoted(p3, m, sp + qh + close);
    lemma_nstring_quoted(p4, h, close);
    let e1 = p2.len() - 1;
    let e2 = p3.len() - 1;
    let e3 = p4.len() - 1;
    let e4 = p4.len() as int + qh.len();
    assert(s[e1] == 0x20u8);
    assert(s[e2] == 0x20u8);
    assert(s[e3] == 0x20u8);
    lemma_space_at(s, e1);
    lemma_space_at(s, e2);
    lemma_space_at(s, e3);
    assert(s[0] == 0x28u8);
    assert(s[e4] == 0x29u8);
}

/// The fields of an address come in the order name, adl, mailbox, host: an address of
/// four quoted strings is read with the first as its name, the second as its source
/// route, the third as its mailbox and the fourth as its host.
#[verifier::rlimit(100)]
#[verifier::spinoff_prover]
pub proof fn lemma_address_fields_in_order(
    n: Seq<char>,
    a: Seq<char>,
    m: Seq<char>,
    h: Seq<char>,
    rest: Seq<u8>,
)
    requires
        is_text(n),
        is_text(a),
        is_text(m),
        is_text(h),
    ensures
        spec_address(quoted_address_bytes(n, a, m, h) + rest, 0) == Ok::<(int, SpecAddress), ParseError>((
            quoted_address_bytes(n, a, m, h).len() as int,
            SpecAddress {
                name: Some(encode_utf8(spec_quote(n))),
                adl: Some(encode_utf8(spec_quote(a))),
                mailbox: Some(encode_utf8(spec_quote(m))),
                host: Some(encode_utf8(spec_quote(h))),
            },
        )),
{
    lemma_address_layout(n, a, m, h, rest);
    let e1 = 1 + quoted_bytes(n).len() as int;
    let e2 = e1 + 1 + quoted_bytes(a).len() as int;
    let e3 = e2 + 1 + quoted_bytes(m).len() as int;
    let e4 = e3 + 1 + quoted_bytes(h).len() as int;
    lemma_address_from_parts(
        quoted_address_bytes(n, a, m, h) + rest,
        e1,
        e2,
        e3,
        e4,
        Some(encode_utf8(spec_quote(n))),
        Some(encode_utf8(spec_quote(a))),
        Some(encode_utf8(spec_quote(m))),
        Some(encode_utf8(spec_quote(h))),
    );
}

proof fn lemma_nstring_nil(pre: Seq<u8>, rest: Seq<u8>)
    ensures
        spec_nstring(pre + ascii_bytes("NIL"@) + rest, pre.len() as int) == Ok::<(int, Option<Bytes>), ParseError>(
            (pre.len() as int + 3, None),
        ),
{
    reveal_strlit("NIL");
    reveal(spec_nstring);
    let s = pre + ascii_bytes("NIL"@) + rest;
    assert(ascii_bytes("NIL"@) =~= kw_bytes(Kw::Nil));
    assert(s.subrange(pre.len() as int, pre.len() as int + 3) =~= kw_bytes(Kw::Nil));
    lemma_kw_reads(s, pre.len() as int, Kw::Nil, true);
}

/// An address with only a name: its other fields are NIL.
pub open spec fn name_address(t: Seq<char>) -> SpecAddress {
    SpecAddress { name: Some(encode_utf8(spec_quote(t))), adl: None, mailbox: None, host: None }
}

/// The bytes of an address with only the name `t`.
pub open spec fn name_address_bytes(t: Seq<char>) -> Seq<u8> {
    seq![0x28u8] + quoted_bytes(t) + ascii_bytes(" NIL NIL NIL"@) + seq![0x29u8]
}

/// The bytes of a list of one address with only the name `t`.
pub open spec fn single_list_bytes(t: Seq<char>) -> Seq<u8> {
    seq![0x28u8] + name_address_bytes(t) + seq![0x29u8]
}

proof fn lemma_address_from_parts_at(
    s: Seq<u8>,
    o: int,
    e1: int,
    e2: int,
    e3: int,
    e4: int,
    v1: Option<Bytes>,
    v2: Option<Bytes>,
    v3: Option<Bytes>,
    v4: Option<Bytes>,
)
    requires
        0 <= o < e1 < e2 < e3 < e4 < s.len(),
        s[o] == 0x28u8,
        spec_nstring(s, o + 1) == Ok::<(int, Option<Bytes>), ParseError>((e1, v1)),
        spec_kw(s, e1, Kw::Sp, false) == Ok::<int, ParseError>(e1 + 1),
        spec_nstring(s, e1 + 1) == Ok::<(int, Option<Bytes>), ParseError>((e2, v2)),
        spec_kw(s, e2, Kw::Sp, false) == Ok::<int, ParseError>(e2 + 1),
        spec_nstring(s, e2 + 1) == Ok::<(int, Option<Bytes>), ParseError>((e3, v3)),
        spec_kw(s, e3, Kw::Sp, false) == Ok::<int, ParseError>(e3 + 1),
        spec_nstring(s, e3 + 1) == Ok::<(int, Option<Bytes>), ParseError>((e4, v4)),
        s[e4] == 0x29u8,
    ensures
        spec_address(s, o) == Ok::<(int, SpecAddress), ParseError>(
            (e4 + 1, SpecAddress { name: v1, adl: v2, mailbox: v3, host: v4 }),
        ),
{
    assert(spec_address_fields(s, o + 1) == Ok::<(int, SpecAddress), ParseError>(
        (e4, SpecAddress { name: v1, adl: v2, mailbox: v3, host: v4 }),
    ));
}

#[verifier::rlimit(100)]
#[verifier::spinoff_prover]
proof fn lemma_name_address_layout(pre: Seq<u8>, t: Seq<char>, rest: Seq<u8>)
    requires
        is_text(t),
    ensures
        ({
            let s = pre + name_address_bytes(t) + rest;
            let o = pre.len() as int;
            let e1 = o + 1 + quoted_bytes(t).len();
            &&& e1 + 13 <= s.len()
            &&& s[o] == 0x28u8
            &&& s[e1 + 12] == 0x29u8
            &&& spec_nstring(s, o + 1) == Ok::<(int, Option<Bytes>), ParseError>((e1, Some(encode_utf8(spec_quote(t)))))
            &&& spec_kw(s, e1, Kw::Sp, false) == Ok::<int, ParseError>(e1 + 1)
            &&& spec_nstring(s, e1 + 1) == Ok::<(int, Option<Bytes>), ParseError>((e1 + 4, None))
            &&& spec_kw(s, e1 + 4, Kw::Sp, false) == Ok::<int, ParseError>(e1 + 5)
            &&& spec_nstring(s, e1 + 5) == Ok::<(int, Option<Bytes>), ParseError>((e1 + 8, None))
            &&& spec_kw(s, e1 + 8, Kw::Sp, false) == Ok::<int, ParseError>(e1 + 9)
            &&& spec_nstring(s, e1 + 9) == Ok::<(int, Option<Bytes>), ParseError>((e1 + 12, None))
        }),
{
    reveal_strlit(" NIL NIL NIL");
    reveal_strlit("NIL");
    let q = quoted_bytes(t);
    let nil = ascii_bytes("NIL"@);
    let sp = seq![0x20u8];
    let close = seq![0x29u8] + rest;
    let s = pre + name_address_bytes(t) + rest;
    let o = pre.len() as int;
    let e1 = o + 1 + q.len();
    assert(ascii_bytes(" NIL NIL NIL"@) =~= sp + nil + sp + nil + sp + nil);
    let p1 = pre + seq![0x28u8];
    let p2 = p1 + q + sp;
    let p3 = p2 + nil + sp;
    let p4 = p3 + nil + sp;
    assert(s =~= p1 + q + (sp + nil + sp + nil + sp + nil + close));
    assert(s =~= p2 + nil + (sp + nil + sp + nil + close));
    assert(s =~= p3 + nil + (sp + nil + close));
    assert(s =~= p4 + nil + close);
    lemma_nstring_quoted(p1, t, sp + nil + sp + nil + sp + nil + close);
    lemma_nstring_nil(p2, sp + nil + sp + nil + close);
    lemma_nstring_nil(p3, sp + nil + close);
    lemma_nstring_nil(p4, close);
    assert(s[e1] == 0x20u8);
    assert(s[e1 + 4] == 0x20u8);
    assert(s[e1 + 8] == 0x20u8);
    lemma_space_at(s, e1);
    lemma_space_at(s, e1 + 4);
    lemma_space_at(s, e1 + 8);
    assert(s[o] == 0x28u8);
    assert(s[e1 + 12] == 0x29u8);
}

/// An address with only a name is read with that name and the other fields empty.
proof fn lemma_name_address(pre: Seq<u8>, t: Seq<char>, rest: Seq<u8>)
    requires
        is_text(t),
    ensures
        spec_address(pre + name_address_bytes(t) + rest, pre.len() as int) == Ok::<(int, SpecAddress), ParseError>(
            (pre.len() as int + name_address_bytes(t).len(), name_address(t)),
        ),
{
    reveal_strlit(" NIL NIL NIL");
    lemma_name_address_layout(pre, t, rest);
    let o = pre.len() as int;
    let e1 = o + 1 + quoted_bytes(t).len();
    lemma_address_from_parts_at(
        pre + name_address_bytes(t) + rest,
        o,
        e1,
        e1 + 4,
        e1 + 8,
        e1 + 12,
        Some(encode_utf8(spec_quote(t))),
        None,
        None,
        None,
    );
}

proof fn lemma_single_list_from_parts(s: Seq<u8>, o: int, e: int, v: SpecAddress)
    requires
        0 <= o < e < s.len(),
        s[o] == 0x28u8,
        s[e] == 0x29u8,
        spec_kw(s, o, Kw::Nil, true) == Err::<int, ParseError>(ParseError::Error),
        spec_address(s, o + 1) == Ok::<(int, SpecAddress), ParseError>((e, v)),
    ensures
        spec_opt_addresses(s, o) == Ok::<(int, Option<Seq<SpecAddress>>), ParseError>((e + 1, Some(seq![v]))),
{
    reveal(spec_opt_addresses);
    assert(spec_address_opt_sp(s, o + 1) == Ok::<(int, SpecAddress), ParseError>((e, v)));
    assert(spec_address(s, e) == Err::<(int, SpecAddress), ParseError>(ParseError::Error));
    assert(spec_many0(s, e, g_address_opt_sp()) == Ok::<(int, Seq<SpecAddress>), ParseError>((e, Seq::empty())));
    lemma_prepend_empty(seq![v], e);
    assert(spec_many1(s, o + 1, g_address_opt_sp()) == Ok::<(int, Seq<SpecAddress>), ParseError>((e, seq![v])));
}

/// A list of one address with only a name is read as that one address.
#[verifier::rlimit(100)]
#[verifier::spinoff_prover]
proof fn lemma_single_list(pre: Seq<u8>, t: Seq<char>, rest: Seq<u8>)
    requires
        is_text(t),
    ensures
        spec_opt_addresses(pre + single_list_bytes(t) + rest, pre.len() as int)
            == Ok::<(int, Option<Seq<SpecAddress>>), ParseError>(
            (pre.len() as int + single_list_bytes(t).len(), Some(seq![name_address(t)])),
        ),
{
    let s = pre + single_list_bytes(t) + rest;
    let o = pre.len() as int;
    let a = name_address_bytes(t);
    let inner_pre = pre + seq![0x28u8];
    assert(s =~= inner_pre + a + (seq![0x29u8] + rest));
    lemma_name_address(inner_pre, t, seq![0x29u8] + rest);
    let e = o + 1 + a.len();
    assert(s[o] == 0x28u8);
    assert(s[e] == 0x29u8);
    lemma_kw_refuses(s, o, Kw::Nil, true, 0);
    lemma_single_list_from_parts(s, o, e, name_address(t));
}

/// The ten fields of an envelope whose date, subject, in-reply-to and message id are
/// quoted strings and whose six address lists each hold one address with only a name.
pub open spec fn envelope_pieces(d: Seq<char>, sj: Seq<char>, fr: Seq<char>, se: Seq<char>, rt: Seq<char>, to: Seq<char>, cc: Seq<char>, bc: Seq<char>, ir: Seq<char>, mi: Seq<char>) -> Seq<Seq<u8>> {
    seq![quoted_bytes(d), quoted_bytes(sj), single_list_bytes(fr), single_list_bytes(se), single_list_bytes(rt), single_list_bytes(to), single_list_bytes(cc), single_list_bytes(bc), quoted_bytes(ir), quoted_bytes(mi)]
}

/// The bytes from field `k` of an envelope on, its closing bracket and `rest`.
pub open spec fn envelope_tail(p: Seq<Seq<u8>>, k: int, rest: Seq<u8>) -> Seq<u8>
    decreases 9 - k,
{
    if k >= 9 {
        p[9] + (seq![0x29u8] + rest)
    } else {
        p[k] + (seq![0x20u8] + envelope_tail(p, k + 1, rest))
    }
}

/// The bytes of an envelope before its field `k`.
pub open spec fn envelope_head(p: Seq<Seq<u8>>, k: int) -> Seq<u8>
    decreases k,
{
    if k <= 0 {
        seq![0x28u8]
    } else {
        envelope_head(p, k - 1) + p[k - 1] + seq![0x20u8]
    }
}

/// The bytes of an envelope, then `rest`.
pub open spec fn envelope_then(d: Seq<char>, sj: Seq<char>, fr: Seq<char>, se: Seq<char>, rt: Seq<char>, to: Seq<char>, cc: Seq<char>, bc: Seq<char>, ir: Seq<char>, mi: Seq<char>, rest: Seq<u8>) -> Seq<u8> {
    seq![0x28u8] + envelope_tail(envelope_pieces(d, sj, fr, se, rt, to, cc, bc, ir, mi), 0, rest)
}

proof fn lemma_envelope_split(p: Seq<Seq<u8>>, k: int, rest: Seq<u8>)
    requires
        0 <= k <= 9,
    ensures
        seq![0x28u8] + envelope_tail(p, 0, rest) == envelope_head(p, k) + envelope_tail(p, k, rest),
    decreases k,
{
    if k > 0 {
        lemma_envelope_split(p, k - 1, rest);
        let h = envelope_head(p, k - 1);
        assert(h + envelope_tail(p, k - 1, rest) =~= envelope_head(p, k) + envelope_tail(p, k, rest));
    }
}

proof fn lemma_envelope_piece(p: Seq<Seq<u8>>, k: int, rest: Seq<u8>)
    requires
        0 <= k <= 9,
    ensures
        ({
            let s = seq![0x28u8] + envelope_tail(p, 0, rest);
            let r = if k < 9 { seq![0x20u8] + envelope_tail(p, k + 1, rest) } else { seq![0x29u8] + rest };
            &&& s == envelope_head(p, k) + p[k] + r
            &&& r.len() > 0
            &&& r[0] == (if k < 9 { 0x20u8 } else { 0x29u8 })
        }),
{
    lemma_envelope_split(p, k, rest);
    let r = if k < 9 { seq![0x20u8] + envelope_tail(p, k + 1, rest) } else { seq![0x29u8] + rest };
    assert(envelope_tail(p, k, rest) == p[k] + r);
    assert(envelope_head(p, k) + (p[k] + r) =~= envelope_head(p, k) + p[k] + r);
}

#[verifier::rlimit(100)]
#[verifier::spinoff_prover]
proof fn lemma_quoted_field(p: Seq<Seq<u8>>, k: int, t: Seq<char>, rest: Seq<u8>)
    requires
        0 <= k <= 9,
        is_text(t),
        p[k] == quoted_bytes(t),
    ensures
        ({
            let s = seq![0x28u8] + envelope_tail(p, 0, rest);
            let c = envelope_head(p, k).len() as int;
            &&& spec_nstring(s, c) == Ok::<(int, Option<Bytes>), ParseError>((c + p[k].len(), Some(encode_utf8(spec_quote(t)))))
            &&& s[c + p[k].len()] == (if k < 9 { 0x20u8 } else { 0x29u8 })
            &&& c + p[k].len() < s.len()
            &&& k < 9 ==> spec_kw(s, c + p[k].len(), Kw::Sp, false) == Ok::<int, ParseError>(c + p[k].len() + 1)
        }),
{
    lemma_envelope_piece(p, k, rest);
    let r = if k < 9 { seq![0x20u8] + envelope_tail(p, k + 1, rest) } else { seq![0x29u8] + rest };
    lemma_nstring_quoted(envelope_head(p, k), t, r);
    let s = seq![0x28u8] + envelope_tail(p, 0, rest);
    let c = envelope_head(p, k).len() as int;
    if k < 9 {
        lemma_space_at(s, c + p[k].len());
    }
}

#[verifier::rlimit(100)]
#[verifier::spinoff_prover]
proof fn lemma_list_field(p: Seq<Seq<u8>>, k: int, t: Seq<char>, rest: Seq<u8>)
    requires
        0 <= k < 9,
        is_text(t),
        p[k] == single_list_bytes(t),
    ensures
        ({
            let s = seq![0x28u8] + envelope_tail(p, 0, rest);
            let c = envelope_head(p, k).len() as int;
            &&& spec_opt_addresses(s, c) == Ok::<(int, Option<Seq<SpecAddress>>), ParseError>(
                (c + p[k].len(), Some(seq![name_address(t)])))
            &&& spec_kw(s, c + p[k].len(), Kw::Sp, false) == Ok::<int, ParseError>(c + p[k].len() + 1)
        }),
{
    lemma_envelope_piece(p, k, rest);
    let r = seq![0x20u8] + envelope_tail(p, k + 1, rest);
    lemma_single_list(envelope_head(p, k), t, r);
    let s = seq![0x28u8] + envelope_tail(p, 0, rest);
    let c = envelope_head(p, k).len() as int;
    lemma_space_at(s, c + p[k].len());
}

proof fn lemma_head_len(p: Seq<Seq<u8>>, k: int)
    requires
        0 <= k <= 9,
    ensures
        envelope_head(p, k + 1).len() == envelope_head(p, k).len() + p[k].len() + 1,
        envelope_head(p, 0).len() == 1,
{
}

#[verifier::rlimit(100)]
#[verifier::spinoff_prover]
proof fn lemma_addresses_from_parts(
    s: Seq<u8>,
    c: Seq<int>,
    a: Seq<Seq<SpecAddress>>,
)
    requires
        c.len() == 7,
        a.len() == 6,
        forall|j: int| 0 <= j < 6 ==> #[trigger] spec_opt_addresses(s, c[j]) == Ok::<(int, Option<Seq<SpecAddress>>), ParseError>(
            (c[j + 1] - 1, Some(a[j]))),
        forall|j: int| 0 <= j < 6 ==> #[trigger] spec_kw(s, c[j + 1] - 1, Kw::Sp, false) == Ok::<int, ParseError>(c[j + 1]),
    ensures
        spec_envelope_addresses(s, c[0]) == Ok::<(int, (Option<Seq<SpecAddress>>, Option<Seq<SpecAddress>>, Option<Seq<SpecAddress>>, Option<Seq<SpecAddress>>, Option<Seq<SpecAddress>>, Option<Seq<SpecAddress>>)), ParseError>(
            (c[6], (Some(a[0]), Some(a[1]), Some(a[2]), Some(a[3]), Some(a[4]), Some(a[5])))),
{
    assert forall|j: int| 0 <= j < 6 implies #[trigger] spec_addresses_sp(s, c[j]) == Ok::<(int, Option<Seq<SpecAddress>>), ParseError>(
        (c[j + 1], Some(a[j]))) by {
        assert(spec_opt_addresses(s, c[j]) == Ok::<(int, Option<Seq<SpecAddress>>), ParseError>((c[j + 1] - 1, Some(a[j]))));
        assert(spec_kw(s, c[j + 1] - 1, Kw::Sp, false) == Ok::<int, ParseError>(c[j + 1]));
    }
    assert(spec_addresses_sp(s, c[0]) == Ok::<(int, Option<Seq<SpecAddress>>), ParseError>((c[1], Some(a[0]))));
    assert(spec_addresses_sp(s, c[1]) == Ok::<(int, Option<Seq<SpecAddress>>), ParseError>((c[2], Some(a[1]))));
    assert(spec_addresses_sp(s, c[2]) == Ok::<(int, Option<Seq<SpecAddress>>), ParseError>((c[3], Some(a[2]))));
    assert(spec_addresses_sp(s, c[3]) == Ok::<(int, Option<Seq<SpecAddress>>), ParseError>((c[4], Some(a[3]))));
    assert(spec_addresses_sp(s, c[4]) == Ok::<(int, Option<Seq<SpecAddress>>), ParseError>((c[5], Some(a[4]))));
    assert(spec_addresses_sp(s, c[5]) == Ok::<(int, Option<Seq<SpecAddress>>), ParseError>((c[6], Some(a[5]))));
}

#[verifier::rlimit(100)]
#[verifier::spinoff_prover]
proof fn lemma_envelope_fields_from_parts(
    s: Seq<u8>,
    c0: int, c1: int, c2: int, c8: int, c9: int, end: int,
    v0: Option<Bytes>, v1: Option<Bytes>, v8: Option<Bytes>, v9: Option<Bytes>,
    a: Seq<Seq<SpecAddress>>,
)
    requires
        a.len() == 6,
        spec_nstring(s, c0) == Ok::<(int, Option<Bytes>), ParseError>((c1 - 1, v0)),
        spec_kw(s, c1 - 1, Kw::Sp, false) == Ok::<int, ParseError>(c1),
        spec_nstring(s, c1) == Ok::<(int, Option<Bytes>), ParseError>((c2 - 1, v1)),
        spec_kw(s, c2 - 1, Kw::Sp, false) == Ok::<int, ParseError>(c2),
        spec_envelope_addresses(s, c2) == Ok::<(int, (Option<Seq<SpecAddress>>, Option<Seq<SpecAddress>>, Option<Seq<SpecAddress>>, Option<Seq<SpecAddress>>, Option<Seq<SpecAddress>>, Option<Seq<SpecAddress>>)), ParseError>(
            (c8, (Some(a[0]), Some(a[1]), Some(a[2]), Some(a[3]), Some(a[4]), Some(a[5])))),
        spec_nstring(s, c8) == Ok::<(int, Option<Bytes>), ParseError>((c9 - 1, v8)),
        spec_kw(s, c9 - 1, Kw::Sp, false) == Ok::<int, ParseError>(c9),
        spec_nstring(s, c9) == Ok::<(int, Option<Bytes>), ParseError>((end, v9)),
    ensures
        spec_envelope_fields(s, c0) == Ok::<(int, SpecEnvelope), ParseError>((end, SpecEnvelope {
            date: v0, subject: v1, from: Some(a[0]), sender: Some(a[1]), reply_to: Some(a[2]),
            to: Some(a[3]), cc: Some(a[4]), bcc: Some(a[5]), in_reply_to: v8, message_id: v9,
        })),
{
}

#[verifier::rlimit(100)]
#[verifier::spinoff_prover]
proof fn lemma_envelope_from_fields(s: Seq<u8>, end: int, v: SpecEnvelope)
    requires
        0 < end < s.len(),
        s[0] == 0x28u8,
        s[end] == 0x29u8,
        spec_envelope_fields(s, 1) == Ok::<(int, SpecEnvelope), ParseError>((end, v)),
    ensures
        spec_envelope(s, 0) == Ok::<(int, SpecEnvelope), ParseError>((end + 1, v)),
{
    reveal(spec_envelope);
}

/// The fields of an envelope come in the order date, subject, from, sender, reply-to,
/// to, cc, bcc, in-reply-to, message id: an envelope of quoted strings and of address
/// lists that each hold one address is read with each field from its own place.
#[verifier::rlimit(100)]
#[verifier::spinoff_prover]
pub proof fn lemma_envelope_fields_in_order(d: Seq<char>, sj: Seq<char>, fr: Seq<char>, se: Seq<char>, rt: Seq<char>, to: Seq<char>, cc: Seq<char>, bc: Seq<char>, ir: Seq<char>, mi: Seq<char>, rest: Seq<u8>)
    requires
        is_text(d),
        is_text(sj),
        is_text(fr),
        is_text(se),
        is_text(rt),
        is_text(to),
        is_text(cc),
        is_text(bc),
        is_text(ir),
        is_text(mi),
    ensures
        spec_envelope(envelope_then(d, sj, fr, se, rt, to, cc, bc, ir, mi, rest), 0) == Ok::<(int, SpecEnvelope), ParseError>((
            envelope_then(d, sj, fr, se, rt, to, cc, bc, ir, mi, rest).len() - rest.len(),
            SpecEnvelope {
                date: Some(encode_utf8(spec_quote(d))),
                subject: Some(encode_utf8(spec_quote(sj))),
                from: Some(seq![name_address(fr)]),
                sender: Some(seq![name_address(se)]),
                reply_to: Some(seq![name_address(rt)]),
                to: Some(seq![name_address(to)]),
                cc: Some(seq![name_address(cc)]),
                bcc: Some(seq![name_address(bc)]),
                in_reply_to: Some(encode_utf8(spec_quote(ir))),
                message_id: Some(encode_utf8(spec_quote(mi))),
            },
        )),
{
    let p = envelope_pieces(d, sj, fr, se, rt, to, cc, bc, ir, mi);
    let s = envelope_then(d, sj, fr, se, rt, to, cc, bc, ir, mi, rest);
    lemma_head_len(p, 0);
    lemma_head_len(p, 1);
    lemma_head_len(p, 2);
    lemma_head_len(p, 3);
    lemma_head_len(p, 4);
    lemma_head_len(p, 5);
    lemma_head_len(p, 6);
    lemma_head_len(p, 7);
    lemma_head_len(p, 8);
    lemma_head_len(p, 9);
    let c0 = envelope_head(p, 0).len() as int;
    let c1 = envelope_head(p, 1).len() as int;
    let c2 = envelope_head(p, 2).len() as int;
    let c3 = envelope_head(p, 3).len() as int;
    let c4 = envelope_head(p, 4).len() as int;
    let c5 = envelope_head(p, 5).len() as int;
    let c6 = envelope_head(p, 6).len() as int;
    let c7 = envelope_head(p, 7).len() as int;
    let c8 = envelope_head(p, 8).len() as int;
    let c9 = envelope_head(p, 9).len() as int;
    let end = c9 + p[9].len();
    lemma_quoted_field(p, 0, d, rest);
    lemma_quoted_field(p, 1, sj, rest);
    lemma_list_field(p, 2, fr, rest);
    lemma_list_field(p, 3, se, rest);
    lemma_list_field(p, 4, rt, rest);
    lemma_list_field(p, 5, to, rest);
    lemma_list_field(p, 6, cc, rest);
    lemma_list_field(p, 7, bc, rest);
    lemma_quoted_field(p, 8, ir, rest);
    lemma_quoted_field(p, 9, mi, rest);
    let a = seq![
        seq![name_address(fr)], seq![name_address(se)], seq![name_address(rt)],
        seq![name_address(to)], seq![name_address(cc)], seq![name_address(bc)],
    ];
    let cs = seq![c2, c3, c4, c5, c6, c7, c8];
    lemma_addresses_from_parts(s, cs, a);
    lemma_envelope_fields_from_parts(
        s, c0, c1, c2, c8, c9, end,
        Some(encode_utf8(spec_quote(d))), Some(encode_utf8(spec_quote(sj))),
        Some(encode_utf8(spec_quote(ir))), Some(encode_utf8(spec_quote(mi))),
        a,
    );
    lemma_envelope_piece(p, 0, rest);
    lemma_envelope_split(p, 9, rest);
    assert(s.len() == end + 1 + rest.len());
    lemma_envelope_from_fields(s, end, SpecEnvelope {
        date: Some(encode_utf8(spec_quote(d))),
        subject: Some(encode_utf8(spec_quote(sj))),
        from: Some(a[0]),
        sender: Some(a[1]),
        reply_to: Some(a[2]),
        to: Some(a[3]),
        cc: Some(a[4]),
        bcc: Some(a[5]),
        in_reply_to: Some(encode_utf8(spec_quote(ir))),
        message_id: Some(encode_utf8(spec_quote(mi))),
    });
}

pub fn p_address(s: &[u8], i: usize) -> (r: PRes<Address>)
    requires
        i <= s@.len(),
    ensures
        dv(r) == spec_address(s@, i as int),
        wf(r, s@, i as int),
{
    let f = |t: &[u8], j: usize| -> (q: PRes<Address>)
        requires
            j <= t@.len(),
        ensures
            dv(q) == spec_address_fields(t@, j as int),
            wf(q, t@, j as int),
        { p_address_fields(t, j) };
    paren_delimited(s, i, f, Ghost(g_address_fields()))
}

/// An address and the space after it, which may be missing.
pub open spec fn spec_address_opt_sp(s: Seq<u8>, i: int) -> SRes<SpecAddress> {
    match spec_address(s, i) {
        Err(x) => Err(x),
        Ok((a, v)) => match spec_opt_byte(s, a, 0x20) {
            Err(x) => Err(x),
            Ok(b) => Ok((b, v)),
        },
    }
}

fn p_address_opt_sp(s: &[u8], i: usize) -> (r: PRes<Address>)
    requires
        i <= s@.len(),
    ensures
        dv(r) == spec_address_opt_sp(s@, i as int),
        wf(r, s@, i as int),
{
    let (a, v) = match p_address(s, i) {
        Ok(v) => v,
        Err(x) => return Err(x),
    };
    match opt_byte(s, a, 0x20) {
        Err(x) => Err(x),
        Ok(b) => Ok((b, v)),
    }
}

pub open spec fn g_address_opt_sp() -> SpecParser<SpecAddress> {
    |s: Seq<u8>, i: int| spec_address_opt_sp(s, i)
}

pub open spec fn g_address_list() -> SpecParser<Seq<SpecAddress>> {
    |s: Seq<u8>, i: int| spec_many1(s, i, g_address_opt_sp())
}

/// nil, or a parenthesized list of addresses.
#[verifier::opaque]
pub open spec fn spec_opt_addresses(s: Seq<u8>, i: int) -> SRes<Option<Seq<SpecAddress>>> {
    match spec_nil(s, i) {
        Ok(e) => Ok((e, None)),
        Err(ParseError::Error) => match spec_paren_delimited(s, i, g_address_list()) {
            Ok((e, v)) => Ok((e, Some(v))),
            Err(x) => Err(x),
        },
        Err(x) => Err(x),
    }
}

fn p_address_list(s: &[u8], i: usize) -> (r: PRes<Vec<Address>>)
    requires
        i <= s@.len(),
    ensures
        dv(r) == spec_many1(s@, i as int, g_address_opt_sp()),
        wf(r, s@, i as int),
{
    let f = |t: &[u8], j: usize| -> (q: PRes<Address>)
        requires
            j <= t@.len(),
        ensures
            dv(q) == spec_address_opt_sp(t@, j as int),
            wf(q, t@, j as int),
        { p_address_opt_sp(t, j) };
    many1(s, i, f, Ghost(g_address_opt_sp()))
}

pub fn p_opt_addresses(s: &[u8], i: usize) -> (r: PRes<Option<Vec<Address>>>)
    requires
        i <= s@.len(),
    ensures
        dv(r) == spec_opt_addresses(s@, i as int),
        wf(r, s@, i as int),
{
    reveal(spec_opt_addresses);
    match p_nil(s, i) {
        Ok(e) => Ok((e, None)),
        Err(ParseError::Error) => {
            let f = |t: &[u8], j: usize| -> (q: PRes<Vec<Address>>)
                requires
                    j <= t@.len(),
                ensures
                    dv(q) == spec_many1(t@, j as int, g_address_opt_sp()),
                    wf(q, t@, j as int),
                { p_address_list(t, j) };
            match paren_delimited(s, i, f, Ghost(g_address_list())) {
                Ok((e, v)) => Ok((e, Some(v))),
                Err(x) => Err(x),
            }
        },
        Err(x) => Err(x),
    }
}

/// opt-addresses SP
pub open spec fn spec_addresses_sp(s: Seq<u8>, i: int) -> SRes<Option<Seq<SpecAddress>>> {
    match spec_opt_addresses(s, i) {
        Err(x) => Err(x),
        Ok((a, v)) => match spec_kw(s, a, Kw::Sp, false) {
            Err(x) => Err(x),
            Ok(b) => Ok((b, v)),
        },
    }
}

fn p_addresses_sp(s: &[u8], i: usize) -> (r: PRes<Option<Vec<Address>>>)
    requires
        i <= s@.len(),
    ensures
        dv(r) == spec_addresses_sp(s@, i as int),
        wf(r, s@, i as int),
{
    let (a, v) = match p_opt_addresses(s, i) {
        Ok(v) => v,
        Err(x) => return Err(x),
    };
    match tag_kw(s, a, Kw::Sp, false) {
        Err(x) => Err(x),
        Ok(b) => Ok((b, v)),
    }
}

/// The six address lists of an envelope, each followed by a space.
pub open spec fn spec_envelope_addresses(s: Seq<u8>, i: int) -> SRes<
    (
        Option<Seq<SpecAddress>>,
        Option<Seq<SpecAddress>>,
        Option<Seq<SpecAddress>>,
        Option<Seq<SpecAddress>>,
        Option<Seq<SpecAddress>>,
        Option<Seq<SpecAddress>>,
    ),
> {
    match spec_addresses_sp(s, i) {
        Err(x) => Err(x),
        Ok((a, from)) => match spec_addresses_sp(s, a) {
            Err(x) => Err(x),
            Ok((b, sender)) => match spec_addresses_sp(s, b) {
                Err(x) => Err(x),
                Ok((c, reply_to)) => match spec_addresses_sp(s, c) {
                    Err(x) => Err(x),
                    Ok((d, to)) => match spec_addresses_sp(s, d) {
                        Err(x) => Err(x),
                        Ok((e, cc)) => match spec_addresses_sp(s, e) {
                            Err(x) => Err(x),
                            Ok((f, bcc)) => Ok((f, (from, sender, reply_to, to, cc, bcc))),
                        },
                    },
                },
            },
        },
    }
}

fn p_envelope_addresses(s: &[u8], i: usize) -> (r: PRes<
    (
        Option<Vec<Address>>,
        Option<Vec<Address>>,
        Option<Vec<Address>>,
        Option<Vec<Address>>,
        Option<Vec<Address>>,
        Option<Vec<Address>>,
    ),
>)
    requires
        i <= s@.len(),
    ensures
        dv(r) == spec_envelope_addresses(s@, i as int),
        wf(r, s@, i as int),
{
    let (a, from) = match p_addresses_sp(s, i) {
        Ok(v) => v,
        Err(x) => return Err(x),
    };
    let (b, sender) = match p_addresses_sp(s, a) {
        Ok(v) => v,
        Err(x) => return Err(x),
    };
    let (c, reply_to) = match p_addresses_sp(s, b) {
        Ok(v) => v,
        Err(x) => return Err(x),
    };
    let (d, to) = match p_addresses_sp(s, c) {
        Ok(v) => v,
        Err(x) => return Err(x),
    };
    let (e, cc) = match p_addresses_sp(s, d) {
        Ok(v) => v,
        Err(x) => return Err(x),
    };
    let (f, bcc) = match p_addresses_sp(s, e) {
        Ok(v) => v,
        Err(x) => return Err(x),
    };
    Ok((f, (from, sender, reply_to, to, cc, bcc)))
}

/// The inside of an envelope.
pub open spec fn spec_envelope_fields(s: Seq<u8>, i: int) -> SRes<SpecEnvelope> {
    match spec_nstring_sp(s, i) {
        Err(x) => Err(x),
        Ok((a, date)) => match spec_nstring_sp(s, a) {
            Err(x) => Err(x),
            Ok((b, subject)) => match spec_envelope_addresses(s, b) {
                Err(x) => Err(x),
                Ok((c, (from, sender, reply_to, to, cc, bcc))) => match spec_nstring_sp(s, c) {
                    Err(x) => Err(x),
                    Ok((d, in_reply_to)) => match spec_nstring(s, d) {
                        Err(x) => Err(x),
                        Ok((e, message_id)) => Ok(
                            (
                                e,
                                SpecEnvelope {
                                    date,
                                    subject,
                                    from,
                                    sender,
                                    reply_to,
                                    to,
                                    cc,
                                    bcc,
                                    in_reply_to,
                                    message_id,
                                },
                            ),
                        ),
                    },
                },
            },
        },
    }
}

fn p_envelope_fields(s: &[u8], i: usize) -> (r: PRes<Envelope>)
    requires
        i <= s@.len(),
    ensures
        dv(r) == spec_envelope_fields(s@, i as int),
        wf(r, s@, i as int),
{
    let (a, date) = match p_nstring_sp(s, i) {
        Ok(v) => v,
        Err(x) => return Err(x),
    };
    let (b, subject) = match p_nstring_sp(s, a) {
        Ok(v) => v,
        Err(x) => return Err(x),
    };
    let (c, (from, sender, reply_to, to, cc, bcc)) = match p_envelope_addresses(s, b) {
        Ok(v) => v,
        Err(x) => return Err(x),
    };
    let (d, in_reply_to) = match p_nstring_sp(s, c) {
        Ok(v) => v,
        Err(x) => return Err(x),
    };
    match p_nstring(s, d) {
        Err(x) => Err(x),
        Ok((e, message_id)) => Ok(
            (
                e,
                Envelope {
                    date,
                    subject,
                    from,
                    sender,
                    reply_to,
                    to,
                    cc,
                    bcc,
                    in_reply_to,
                    message_id,
                },
            ),
        ),
    }
}

pub open spec fn g_envelope_fields() -> SpecParser<SpecEnvelope> {
    |s: Seq<u8>, i: int| spec_envelope_fields(s, i)
}

/// envelope = "(" env-date SP env-subject SP env-from SP env-sender SP env-reply-to SP
///            env-to SP env-cc SP env-bcc SP env-in-reply-to SP env-message-id ")"
#[verifier::opaque]
pub open spec fn spec_envelope(s: Seq<u8>, i: int) -> SRes<SpecEnvelope> {
    spec_paren_delimited(s, i, g_envelope_fields())
}

pub fn p_envelope(s: &[u8], i: usize) -> (r: PRes<Envelope>)
    requires
        i <= s@.len(),
    ensures
        dv(r) == spec_envelope(s@, i as int),
        wf(r, s@, i as int),
{
    reveal(spec_envelope);
    let f = |t: &[u8], j: usize| -> (q: PRes<Envelope>)
        requires
            j <= t@.len(),
        ensures
            dv(q) == spec_envelope_fields(t@, j as int),
            wf(q, t@, j as int),
        { p_envelope_fields(t, j) };
    paren_delimited(s, i, f, Ghost(g_envelope_fields()))
}


// ----- the public parsers, at the start of an input -----

/// The envelope at the start of `i`.
pub fn envelope(i: &[u8]) -> (r: crate::parser::base::IResult<'_, Envelope>)
    ensures
        crate::parser::base::iresult_is(i@, r, spec_envelope(i@, 0)),
{
    crate::parser::base::finish(i, p_envelope(i, 0))
}

/// The address at the start of `i`.
pub fn address(i: &[u8]) -> (r: crate::parser::base::IResult<'_, Address>)
    ensures
        crate::parser::base::iresult_is(i@, r, spec_address(i@, 0)),
{
    crate::parser::base::finish(i, p_address(i, 0))
}

/// The address list, or NIL, at the start of `i`.
pub fn opt_addresses(i: &[u8]) -> (r: crate::parser::base::IResult<'_, Option<Vec<Address>>>)
    ensures
        crate::parser::base::iresult_is(i@, r, spec_opt_addresses(i@, 0)),
{
    crate::parser::base::finish(i, p_opt_addresses(i, 0))
}

} // verus!
