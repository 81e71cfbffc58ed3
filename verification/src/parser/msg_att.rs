//! message-data (RFC 3501 section 7.4): FETCH attributes and EXPUNGE, with MODSEQ
//! (RFC 4551) and the Gmail attributes.

use vstd::prelude::*;
use crate::parser::base::{
    byte_match, class_has, dv, kw_bytes, lemma_kw_reads, lemma_kw_refuses, s_map, s_or, spec_kw, tag_kw, wf,
    Class, Kw, PRes, ParseError, SRes,
};
use crate::builders::command::spec_decimal;
use crate::round_trip::{ascii_bytes, lemma_number_reads_decimal};
use crate::parser::body::{p_msg_att_body_section, spec_msg_att_body_section};
use crate::parser::body_structure::{p_msg_att_body_structure, spec_msg_att_body_structure};
use crate::parser::combinators::{
    paren_delimited, parenthesized_nonempty_list, spec_paren_delimited, spec_parenthesized_nonempty_list, SpecParser,
};
use crate::parser::envelope::{p_envelope, spec_envelope};
use crate::parser::mailbox_data::{
    p_gmail_label_list, p_number_kw, spec_gmail_label_list, spec_number_kw,
};
use crate::parser::rfc3501::{
    p_flag_list, p_kw_number, p_kw_number_64, spec_flag_list, spec_kw_number,
    spec_kw_number_64,
};
use crate::parser::tokens::{
    p_nstring, p_nstring_utf8, p_number, p_number_64, spec_nstring, spec_nstring_utf8,
    spec_number, spec_number_64,
};
use crate::types::{AttributeValue, Response};
use crate::types::model::{Bytes, SpecAttributeValue, SpecEnvelope, SpecResponse, Text};

verus! {

/// "ENVELOPE" SP envelope
pub open spec fn spec_msg_att_envelope(s: Seq<u8>, i: int) -> SRes<SpecAttributeValue> {
    match spec_kw(s, i, Kw::EnvelopeSp, true) {
        Err(x) => Err(x),
        Ok(a) => s_map(spec_envelope(s, a), |e: SpecEnvelope| SpecAttributeValue::Envelope(e)),
    }
}

fn p_msg_att_envelope(s: &[u8], i: usize) -> (r: PRes<AttributeValue>)
    requires
        i <= s@.len(),
    ensures
        dv(r) == spec_msg_att_envelope(s@, i as int),
        wf(r, s@, i as int),
{
    let a = match tag_kw(s, i, Kw::EnvelopeSp, true) {
        Ok(a) => a,
        Err(x) => return Err(x),
    };
    match p_envelope(s, a) {
        Ok((e, env)) => Ok((e, AttributeValue::Envelope(Box::new(env)))),
        Err(x) => Err(x),
    }
}

/// "INTERNALDATE" SP date-time, read as a string; NIL gives no date and does not match.
pub open spec fn spec_msg_att_internal_date(s: Seq<u8>, i: int) -> SRes<SpecAttributeValue> {
    match spec_kw(s, i, Kw::InternalDateSp, true) {
        Err(x) => Err(x),
        Ok(a) => match spec_nstring_utf8(s, a) {
            Err(x) => Err(x),
            Ok((_, None)) => Err(ParseError::Error),
            Ok((e, Some(t))) => Ok((e, SpecAttributeValue::InternalDate(t))),
        },
    }
}

fn p_msg_att_internal_date(s: &[u8], i: usize) -> (r: PRes<AttributeValue>)
    requires
        i <= s@.len(),
    ensures
        dv(r) == spec_msg_att_internal_date(s@, i as int),
        wf(r, s@, i as int),
{
    let a = match tag_kw(s, i, Kw::InternalDateSp, true) {
        Ok(a) => a,
        Err(x) => return Err(x),
    };
    match p_nstring_utf8(s, a) {
        Err(x) => Err(x),
        Ok((_, None)) => Err(ParseError::Error),
        Ok((e, Some(t))) => Ok((e, AttributeValue::InternalDate(t))),
    }
}

/// A keyword, then an nstring.
pub open spec fn spec_kw_nstring(s: Seq<u8>, i: int, k: Kw) -> SRes<Option<Bytes>> {
    match spec_kw(s, i, k, true) {
        Err(x) => Err(x),
        Ok(a) => spec_nstring(s, a),
    }
}

fn p_kw_nstring(s: &[u8], i: usize, k: Kw) -> (r: PRes<Option<Vec<u8>>>)
    requires
        i <= s@.len(),
    ensures
        dv(r) == spec_kw_nstring(s@, i as int, k),
        wf(r, s@, i as int),
{
    match tag_kw(s, i, k, true) {
        Err(x) => Err(x),
        Ok(a) => p_nstring(s, a),
    }
}

/// "RFC822.HEADER" SP [SP] nstring: a second space is admitted, as some servers send one.
pub open spec fn spec_msg_att_rfc822_header(s: Seq<u8>, i: int) -> SRes<Option<Bytes>> {
    match spec_kw(s, i, Kw::Rfc822HeaderSp, true) {
        Err(x) => Err(x),
        Ok(a) => match spec_kw(s, a, Kw::Sp, false) {
            Ok(b) => spec_nstring(s, b),
            Err(ParseError::Error) => spec_nstring(s, a),
            Err(x) => Err(x),
        },
    }
}

fn p_msg_att_rfc822_header(s: &[u8], i: usize) -> (r: PRes<Option<Vec<u8>>>)
    requires
        i <= s@.len(),
    ensures
        dv(r) == spec_msg_att_rfc822_header(s@, i as int),
        wf(r, s@, i as int),
{
    let a = match tag_kw(s, i, Kw::Rfc822HeaderSp, true) {
        Ok(a) => a,
        Err(x) => return Err(x),
    };
    match tag_kw(s, a, Kw::Sp, false) {
        Ok(b) => p_nstring(s, b),
        Err(ParseError::Error) => p_nstring(s, a),
        Err(x) => Err(x),
    }
}

pub open spec fn g_number_64() -> SpecParser<u64> {
    |s: Seq<u8>, i: int| spec_number_64(s, i)
}

/// "MODSEQ" SP "(" mod-sequence-value ")"
pub open spec fn spec_msg_att_mod_seq(s: Seq<u8>, i: int) -> SRes<u64> {
    match spec_kw(s, i, Kw::ModSeqSp, true) {
        Err(x) => Err(x),
        Ok(a) => spec_paren_delimited(s, a, g_number_64()),
    }
}

fn p_msg_att_mod_seq(s: &[u8], i: usize) -> (r: PRes<u64>)
    requires
        i <= s@.len(),
    ensures
        dv(r) == spec_msg_att_mod_seq(s@, i as int),
        wf(r, s@, i as int),
{
    let a = match tag_kw(s, i, Kw::ModSeqSp, true) {
        Ok(a) => a,
        Err(x) => return Err(x),
    };
    let f = |t: &[u8], j: usize| -> (q: PRes<u64>)
        requires
            j <= t@.len(),
        ensures
            dv(q) == spec_number_64(t@, j as int),
            wf(q, t@, j as int),
        { p_number_64(t, j) };
    paren_delimited(s, a, f, Ghost(g_number_64()))
}

/// BODY[..], BODYSTRUCTURE, ENVELOPE, INTERNALDATE, FLAGS ...
#[verifier::opaque]
pub open spec fn spec_msg_att_a(s: Seq<u8>, i: int) -> SRes<SpecAttributeValue> {
    s_or(spec_msg_att_body_section(s, i),
    s_or(spec_msg_att_body_structure(s, i),
    s_or(spec_msg_att_envelope(s, i),
    s_or(spec_msg_att_internal_date(s, i),
    s_map(
        match spec_kw(s, i, Kw::FlagsSp, true) {
            Err(x) => Err(x),
            Ok(a) => spec_flag_list(s, a),
        },
        |v: Seq<Text>| SpecAttributeValue::Flags(v),
    )))))
}

/// ... MODSEQ, RFC822, RFC822.HEADER, RFC822.SIZE, RFC822.TEXT ...
#[verifier::opaque]
pub open spec fn spec_msg_att_b(s: Seq<u8>, i: int) -> SRes<SpecAttributeValue> {
    s_or(s_map(spec_msg_att_mod_seq(s, i), |n: u64| SpecAttributeValue::ModSeq(n)),
    s_or(s_map(spec_kw_nstring(s, i, Kw::Rfc822Sp), |d: Option<Bytes>| SpecAttributeValue::Rfc822(d)),
    s_or(s_map(spec_msg_att_rfc822_header(s, i), |d: Option<Bytes>| SpecAttributeValue::Rfc822Header(d)),
    s_or(s_map(spec_kw_number(s, i, Kw::Rfc822SizeSp), |n: u32| SpecAttributeValue::Rfc822Size(n)),
    s_map(spec_kw_nstring(s, i, Kw::Rfc822TextSp), |d: Option<Bytes>| SpecAttributeValue::Rfc822Text(d))))))
}

/// ... UID and the Gmail attributes.
#[verifier::opaque]
pub open spec fn spec_msg_att_c(s: Seq<u8>, i: int) -> SRes<SpecAttributeValue> {
    s_or(s_map(spec_kw_number(s, i, Kw::UidSp), |n: u32| SpecAttributeValue::Uid(n)),
    s_or(s_map(spec_gmail_label_list(s, i), |v: Seq<Text>| SpecAttributeValue::GmailLabels(v)),
    s_or(s_map(spec_kw_number_64(s, i, Kw::GmMsgIdSp), |n: u64| SpecAttributeValue::GmailMsgId(n)),
    s_map(spec_kw_number_64(s, i, Kw::GmThrIdSp), |n: u64| SpecAttributeValue::GmailThrId(n)))))
}

/// msg-att: one fetch attribute, the kinds tried in this order.
pub open spec fn spec_msg_att(s: Seq<u8>, i: int) -> SRes<SpecAttributeValue> {
    s_or(spec_msg_att_a(s, i), s_or(spec_msg_att_b(s, i), spec_msg_att_c(s, i)))
}

proof fn lemma_msg_att_a_from_parts(s: Seq<u8>)
    requires
        spec_kw(s, 0, Kw::Body, true) == Err::<int, ParseError>(ParseError::Error),
        spec_kw(s, 0, Kw::BodyStructureSp, true) == Err::<int, ParseError>(ParseError::Error),
        spec_kw(s, 0, Kw::EnvelopeSp, true) == Err::<int, ParseError>(ParseError::Error),
        spec_kw(s, 0, Kw::InternalDateSp, true) == Err::<int, ParseError>(ParseError::Error),
        spec_kw(s, 0, Kw::FlagsSp, true) == Err::<int, ParseError>(ParseError::Error),
    ensures
        spec_msg_att_a(s, 0) == Err::<(int, SpecAttributeValue), ParseError>(ParseError::Error),
{
    reveal(spec_msg_att_a);
}

/// Neither a body part, nor the body structure, envelope, internal date or flags begin
/// with R, U or X.
proof fn lemma_msg_att_a_refuses(s: Seq<u8>)
    requires
        s.len() > 0,
        s[0] == 0x52 || s[0] == 0x55 || s[0] == 0x58,
    ensures
        spec_msg_att_a(s, 0) == Err::<(int, SpecAttributeValue), ParseError>(ParseError::Error),
{
    lemma_kw_refuses(s, 0, Kw::Body, true, 0);
    lemma_kw_refuses(s, 0, Kw::BodyStructureSp, true, 0);
    lemma_kw_refuses(s, 0, Kw::EnvelopeSp, true, 0);
    lemma_kw_refuses(s, 0, Kw::InternalDateSp, true, 0);
    lemma_kw_refuses(s, 0, Kw::FlagsSp, true, 0);
    lemma_msg_att_a_from_parts(s);
}

proof fn lemma_msg_att_b_size(s: Seq<u8>)
    requires
        spec_kw(s, 0, Kw::ModSeqSp, true) == Err::<int, ParseError>(ParseError::Error),
        spec_kw(s, 0, Kw::Rfc822Sp, true) == Err::<int, ParseError>(ParseError::Error),
        spec_kw(s, 0, Kw::Rfc822HeaderSp, true) == Err::<int, ParseError>(ParseError::Error),
    ensures
        spec_kw_number(s, 0, Kw::Rfc822SizeSp) is Ok ==> spec_msg_att_b(s, 0) == s_map(
            spec_kw_number(s, 0, Kw::Rfc822SizeSp),
            |n: u32| SpecAttributeValue::Rfc822Size(n),
        ),
        spec_kw(s, 0, Kw::Rfc822SizeSp, true) == Err::<int, ParseError>(ParseError::Error)
            && spec_kw(s, 0, Kw::Rfc822TextSp, true) == Err::<int, ParseError>(ParseError::Error)
            ==> spec_msg_att_b(s, 0) == Err::<(int, SpecAttributeValue), ParseError>(ParseError::Error),
{
    reveal(spec_msg_att_b);
}

proof fn lemma_msg_att_b_refuses_u(s: Seq<u8>)
    requires
        s.len() > 0,
        s[0] == 0x55 || s[0] == 0x58,
    ensures
        spec_msg_att_b(s, 0) == Err::<(int, SpecAttributeValue), ParseError>(ParseError::Error),
{
    lemma_kw_refuses(s, 0, Kw::ModSeqSp, true, 0);
    lemma_kw_refuses(s, 0, Kw::Rfc822Sp, true, 0);
    lemma_kw_refuses(s, 0, Kw::Rfc822HeaderSp, true, 0);
    lemma_kw_refuses(s, 0, Kw::Rfc822SizeSp, true, 0);
    lemma_kw_refuses(s, 0, Kw::Rfc822TextSp, true, 0);
    lemma_msg_att_b_size(s);
}

proof fn lemma_msg_att_c_uid(s: Seq<u8>)
    ensures
        spec_kw(s, 0, Kw::UidSp, true) == Err::<int, ParseError>(ParseError::Error)
            && spec_kw(s, 0, Kw::GmLabelsSp, true) == Err::<int, ParseError>(ParseError::Error)
            && spec_kw_number_64(s, 0, Kw::GmMsgIdSp) is Ok ==> spec_msg_att_c(s, 0) == s_map(
            spec_kw_number_64(s, 0, Kw::GmMsgIdSp),
            |n: u64| SpecAttributeValue::GmailMsgId(n),
        ),
        spec_kw(s, 0, Kw::UidSp, true) == Err::<int, ParseError>(ParseError::Error)
            && spec_kw(s, 0, Kw::GmLabelsSp, true) == Err::<int, ParseError>(ParseError::Error)
            && spec_kw(s, 0, Kw::GmMsgIdSp, true) == Err::<int, ParseError>(ParseError::Error)
            ==> spec_msg_att_c(s, 0) == s_map(
            spec_kw_number_64(s, 0, Kw::GmThrIdSp),
            |n: u64| SpecAttributeValue::GmailThrId(n),
        ),
        spec_kw_number(s, 0, Kw::UidSp) is Ok ==> spec_msg_att_c(s, 0) == s_map(
            spec_kw_number(s, 0, Kw::UidSp),
            |n: u32| SpecAttributeValue::Uid(n),
        ),
{
    reveal(spec_msg_att_c);
}

#[verifier::rlimit(100)]
#[verifier::spinoff_prover]
proof fn lemma_msg_att_rfc822_size(n: u32, rest: Seq<u8>)
    requires
        rest.len() > 0,
        !class_has(Class::Digit, rest[0]),
    ensures
        spec_msg_att(ascii_bytes("RFC822.SIZE "@) + spec_decimal(n as nat) + rest, 0)
            == Ok::<(int, SpecAttributeValue), ParseError>((
                ascii_bytes("RFC822.SIZE "@).len() as int + spec_decimal(n as nat).len(),
                SpecAttributeValue::Rfc822Size(n),
            )),
{
    let kb = ascii_bytes("RFC822.SIZE "@);
    let s = kb + spec_decimal(n as nat) + rest;
    reveal_strlit("RFC822.SIZE ");
    assert(kb =~= kw_bytes(Kw::Rfc822SizeSp));
    assert(s[0] == kb[0]);
    assert(s[6] == kb[6]);
    assert(s[7] == kb[7]);
    lemma_msg_att_a_refuses(s);
    lemma_kw_refuses(s, 0, Kw::ModSeqSp, true, 0);
    lemma_kw_refuses(s, 0, Kw::Rfc822Sp, true, 6);
    lemma_kw_refuses(s, 0, Kw::Rfc822HeaderSp, true, 7);
    lemma_msg_att_b_size(s);
    assert(s.subrange(0, kb.len() as int) =~= kb);
    lemma_kw_reads(s, 0, Kw::Rfc822SizeSp, true);
    lemma_number_reads_decimal(kb, n as u64, rest);
}

#[verifier::rlimit(100)]
#[verifier::spinoff_prover]
proof fn lemma_msg_att_uid(n: u32, rest: Seq<u8>)
    requires
        rest.len() > 0,
        !class_has(Class::Digit, rest[0]),
    ensures
        spec_msg_att(ascii_bytes("UID "@) + spec_decimal(n as nat) + rest, 0)
            == Ok::<(int, SpecAttributeValue), ParseError>((
                ascii_bytes("UID "@).len() as int + spec_decimal(n as nat).len(),
                SpecAttributeValue::Uid(n),
            )),
{
    let kb = ascii_bytes("UID "@);
    let s = kb + spec_decimal(n as nat) + rest;
    reveal_strlit("UID ");
    assert(kb =~= kw_bytes(Kw::UidSp));
    assert(s[0] == kb[0]);
    lemma_msg_att_a_refuses(s);
    lemma_msg_att_b_refuses_u(s);
    lemma_msg_att_c_uid(s);
    assert(s.subrange(0, kb.len() as int) =~= kb);
    lemma_kw_reads(s, 0, Kw::UidSp, true);
    lemma_number_reads_decimal(kb, n as u64, rest);
}

proof fn lemma_msg_att_gmail_ids(m: u64, rest: Seq<u8>)
    requires
        rest.len() > 0,
        !class_has(Class::Digit, rest[0]),
    ensures
        spec_msg_att(ascii_bytes("X-GM-MSGID "@) + spec_decimal(m as nat) + rest, 0)
            == Ok::<(int, SpecAttributeValue), ParseError>((
                ascii_bytes("X-GM-MSGID "@).len() as int + spec_decimal(m as nat).len(),
                SpecAttributeValue::GmailMsgId(m),
            )),
        spec_msg_att(ascii_bytes("X-GM-THRID "@) + spec_decimal(m as nat) + rest, 0)
            == Ok::<(int, SpecAttributeValue), ParseError>((
                ascii_bytes("X-GM-THRID "@).len() as int + spec_decimal(m as nat).len(),
                SpecAttributeValue::GmailThrId(m),
            )),
{
    reveal_strlit("X-GM-MSGID ");
    reveal_strlit("X-GM-THRID ");
    let d = spec_decimal(m as nat);
    let km = ascii_bytes("X-GM-MSGID "@);
    let kt = ascii_bytes("X-GM-THRID "@);
    assert(km =~= kw_bytes(Kw::GmMsgIdSp));
    assert(kt =~= kw_bytes(Kw::GmThrIdSp));
    let sm = km + d + rest;
    assert(sm[0] == km[0]);
    assert(sm[5] == km[5]);
    lemma_msg_att_a_refuses(sm);
    lemma_msg_att_b_refuses_u(sm);
    lemma_kw_refuses(sm, 0, Kw::UidSp, true, 0);
    lemma_kw_refuses(sm, 0, Kw::GmLabelsSp, true, 5);
    assert(sm.subrange(0, km.len() as int) =~= km);
    lemma_kw_reads(sm, 0, Kw::GmMsgIdSp, true);
    lemma_number_reads_decimal(km, m, rest);
    lemma_msg_att_c_uid(sm);
    let st = kt + d + rest;
    assert(st[0] == kt[0]);
    assert(st[5] == kt[5]);
    lemma_msg_att_a_refuses(st);
    lemma_msg_att_b_refuses_u(st);
    lemma_kw_refuses(st, 0, Kw::UidSp, true, 0);
    lemma_kw_refuses(st, 0, Kw::GmLabelsSp, true, 5);
    lemma_kw_refuses(st, 0, Kw::GmMsgIdSp, true, 5);
    assert(st.subrange(0, kt.len() as int) =~= kt);
    lemma_kw_reads(st, 0, Kw::GmThrIdSp, true);
    lemma_number_reads_decimal(kt, m, rest);
    lemma_msg_att_c_uid(st);
}

/// A fetch attribute is named by its keyword: for any number `n`, RFC822.SIZE and the
/// digits of `n` are read as the message's size `n`, and UID and the digits of `n` as
/// its UID `n`; X-GM-MSGID and X-GM-THRID with the digits of `m` as those Gmail ids;
/// wherever a byte that is no digit follows.
pub proof fn lemma_msg_att_number_keywords(n: u32, m: u64, rest: Seq<u8>)
    requires
        rest.len() > 0,
        !class_has(Class::Digit, rest[0]),
    ensures
        spec_msg_att(ascii_bytes("RFC822.SIZE "@) + spec_decimal(n as nat) + rest, 0)
            == Ok::<(int, SpecAttributeValue), ParseError>((
                ascii_bytes("RFC822.SIZE "@).len() as int + spec_decimal(n as nat).len(),
                SpecAttributeValue::Rfc822Size(n),
            )),
        spec_msg_att(ascii_bytes("UID "@) + spec_decimal(n as nat) + rest, 0)
            == Ok::<(int, SpecAttributeValue), ParseError>((
                ascii_bytes("UID "@).len() as int + spec_decimal(n as nat).len(),
                SpecAttributeValue::Uid(n),
            )),
        spec_msg_att(ascii_bytes("X-GM-MSGID "@) + spec_decimal(m as nat) + rest, 0)
            == Ok::<(int, SpecAttributeValue), ParseError>((
                ascii_bytes("X-GM-MSGID "@).len() as int + spec_decimal(m as nat).len(),
                SpecAttributeValue::GmailMsgId(m),
            )),
        spec_msg_att(ascii_bytes("X-GM-THRID "@) + spec_decimal(m as nat) + rest, 0)
            == Ok::<(int, SpecAttributeValue), ParseError>((
                ascii_bytes("X-GM-THRID "@).len() as int + spec_decimal(m as nat).len(),
                SpecAttributeValue::GmailThrId(m),
            )),
{
    lemma_msg_att_rfc822_size(n, rest);
    lemma_msg_att_uid(n, rest);
    lemma_msg_att_gmail_ids(m, rest);
}

fn p_msg_att_a(s: &[u8], i: usize) -> (r: PRes<AttributeValue>)
    requires
        i <= s@.len(),
    ensures
        dv(r) == spec_msg_att_a(s@, i as int),
        wf(r, s@, i as int),
{
    reveal(spec_msg_att_a);
    match p_msg_att_body_section(s, i) {
        Err(ParseError::Error) => {},
        r => return r,
    }
    match p_msg_att_body_structure(s, i) {
        Err(ParseError::Error) => {},
        r => return r,
    }
    match p_msg_att_envelope(s, i) {
        Err(ParseError::Error) => {},
        r => return r,
    }
    match p_msg_att_internal_date(s, i) {
        Err(ParseError::Error) => {},
        r => return r,
    }
    let a = match tag_kw(s, i, Kw::FlagsSp, true) {
        Ok(a) => a,
        Err(x) => return Err(x),
    };
    match p_flag_list(s, a) {
        Ok((e, v)) => Ok((e, AttributeValue::Flags(v))),
        Err(x) => Err(x),
    }
}

fn p_msg_att_b(s: &[u8], i: usize) -> (r: PRes<AttributeValue>)
    requires
        i <= s@.len(),
    ensures
        dv(r) == spec_msg_att_b(s@, i as int),
        wf(r, s@, i as int),
{
    reveal(spec_msg_att_b);
    match p_msg_att_mod_seq(s, i) {
        Err(ParseError::Error) => {},
        Ok((e, n)) => return Ok((e, AttributeValue::ModSeq(n))),
        Err(x) => return Err(x),
    }
    match p_kw_nstring(s, i, Kw::Rfc822Sp) {
        Err(ParseError::Error) => {},
        Ok((e, d)) => return Ok((e, AttributeValue::Rfc822(d))),
        Err(x) => return Err(x),
    }
    match p_msg_att_rfc822_header(s, i) {
        Err(ParseError::Error) => {},
        Ok((e, d)) => return Ok((e, AttributeValue::Rfc822Header(d))),
        Err(x) => return Err(x),
    }
    match p_kw_number(s, i, Kw::Rfc822SizeSp) {
        Err(ParseError::Error) => {},
        Ok((e, n)) => return Ok((e, AttributeValue::Rfc822Size(n))),
        Err(x) => return Err(x),
    }
    match p_kw_nstring(s, i, Kw::Rfc822TextSp) {
        Ok((e, d)) => Ok((e, AttributeValue::Rfc822Text(d))),
        Err(x) => Err(x),
    }
}

fn p_msg_att_c(s: &[u8], i: usize) -> (r: PRes<AttributeValue>)
    requires
        i <= s@.len(),
    ensures
        dv(r) == spec_msg_att_c(s@, i as int),
        wf(r, s@, i as int),
{
    reveal(spec_msg_att_c);
    match p_kw_number(s, i, Kw::UidSp) {
        Err(ParseError::Error) => {},
        Ok((e, n)) => return Ok((e, AttributeValue::Uid(n))),
        Err(x) => return Err(x),
    }
    match p_gmail_label_list(s, i) {
        Err(ParseError::Error) => {},
        Ok((e, v)) => return Ok((e, AttributeValue::GmailLabels(v))),
        Err(x) => return Err(x),
    }
    match p_kw_number_64(s, i, Kw::GmMsgIdSp) {
        Err(ParseError::Error) => {},
        Ok((e, n)) => return Ok((e, AttributeValue::GmailMsgId(n))),
        Err(x) => return Err(x),
    }
    match p_kw_number_64(s, i, Kw::GmThrIdSp) {
        Ok((e, n)) => Ok((e, AttributeValue::GmailThrId(n))),
        Err(x) => Err(x),
    }
}

pub fn p_msg_att(s: &[u8], i: usize) -> (r: PRes<AttributeValue>)
    requires
        i <= s@.len(),
    ensures
        dv(r) == spec_msg_att(s@, i as int),
        wf(r, s@, i as int),
{
    match p_msg_att_a(s, i) {
        Err(ParseError::Error) => {},
        r => return r,
    }
    match p_msg_att_b(s, i) {
        Err(ParseError::Error) => {},
        r => return r,
    }
    p_msg_att_c(s, i)
}

pub open spec fn g_msg_att() -> SpecParser<SpecAttributeValue> {
    |s: Seq<u8>, i: int| spec_msg_att(s, i)
}

/// "(" msg-att *(SP msg-att) ")"
pub open spec fn spec_msg_att_list(s: Seq<u8>, i: int) -> SRes<Seq<SpecAttributeValue>> {
    spec_parenthesized_nonempty_list(s, i, g_msg_att())
}

pub fn p_msg_att_list(s: &[u8], i: usize) -> (r: PRes<Vec<AttributeValue>>)
    requires
        i <= s@.len(),
    ensures
        dv(r) == spec_msg_att_list(s@, i as int),
        wf(r, s@, i as int),
{
    let f = |t: &[u8], j: usize| -> (q: PRes<AttributeValue>)
        requires
            j <= t@.len(),
        ensures
            dv(q) == spec_msg_att(t@, j as int),
            wf(q, t@, j as int),
        { p_msg_att(t, j) };
    parenthesized_nonempty_list(s, i, f, Ghost(g_msg_att()))
}

fn fetch_response(n: u32, attrs: Vec<AttributeValue>) -> (r: Response)
    ensures
        r.deep_view() == SpecResponse::Fetch(n, attrs.deep_view()),
{
    Response::Fetch(n, attrs)
}

/// number SP "FETCH" SP msg-att-list
pub open spec fn spec_message_data_fetch(s: Seq<u8>, i: int) -> SRes<SpecResponse> {
    match spec_number(s, i) {
        Err(x) => Err(x),
        Ok((a, n)) => match spec_kw(s, a, Kw::SpFetchSp, true) {
            Err(x) => Err(x),
            Ok(b) => s_map(
                spec_msg_att_list(s, b),
                |attrs: Seq<SpecAttributeValue>| SpecResponse::Fetch(n, attrs),
            ),
        },
    }
}

pub fn p_message_data_fetch(s: &[u8], i: usize) -> (r: PRes<Response>)
    requires
        i <= s@.len(),
    ensures
        dv(r) == spec_message_data_fetch(s@, i as int),
        wf(r, s@, i as int),
{
    let (a, n) = match p_number(s, i) {
        Ok(v) => v,
        Err(x) => return Err(x),
    };
    let b = match tag_kw(s, a, Kw::SpFetchSp, true) {
        Ok(b) => b,
        Err(x) => return Err(x),
    };
    match p_msg_att_list(s, b) {
        Ok((e, attrs)) => Ok((e, fetch_response(n, attrs))),
        Err(x) => Err(x),
    }
}

/// number SP "EXPUNGE"
pub open spec fn spec_message_data_expunge(s: Seq<u8>, i: int) -> SRes<SpecResponse> {
    s_map(spec_number_kw(s, i, Kw::SpExpunge), |n: u32| SpecResponse::Expunge(n))
}

pub fn p_message_data_expunge(s: &[u8], i: usize) -> (r: PRes<Response>)
    requires
        i <= s@.len(),
    ensures
        dv(r) == spec_message_data_expunge(s@, i as int),
        wf(r, s@, i as int),
{
    match p_number_kw(s, i, Kw::SpExpunge) {
        Ok((e, n)) => Ok((e, Response::Expunge(n))),
        Err(x) => Err(x),
    }
}


// ----- the public parsers, at the start of an input -----

/// The ENVELOPE attribute at the start of `i`.
pub fn msg_att_envelope(i: &[u8]) -> (r: crate::parser::base::IResult<'_, AttributeValue>)
    ensures
        crate::parser::base::iresult_is(i@, r, spec_msg_att_envelope(i@, 0)),
{
    crate::parser::base::finish(i, p_msg_att_envelope(i, 0))
}

/// The X-GM-LABELS attribute at the start of `i`.
pub fn msg_att_gmail_labels(i: &[u8]) -> (r: crate::parser::base::IResult<'_, AttributeValue>)
    ensures
        crate::parser::base::iresult_is(
            i@,
            r,
            s_map(spec_gmail_label_list(i@, 0), |v: Seq<Text>| SpecAttributeValue::GmailLabels(v)),
        ),
{
    let q = match p_gmail_label_list(i, 0) {
        Ok((e, v)) => Ok((e, AttributeValue::GmailLabels(v))),
        Err(x) => Err(x),
    };
    crate::parser::base::finish(i, q)
}

/// The X-GM-MSGID attribute at the start of `i`.
pub fn msg_att_gmail_msgid(i: &[u8]) -> (r: crate::parser::base::IResult<'_, AttributeValue>)
    ensures
        crate::parser::base::iresult_is(
            i@,
            r,
            s_map(spec_kw_number_64(i@, 0, Kw::GmMsgIdSp), |n: u64| SpecAttributeValue::GmailMsgId(n)),
        ),
{
    let q = match p_kw_number_64(i, 0, Kw::GmMsgIdSp) {
        Ok((e, n)) => Ok((e, AttributeValue::GmailMsgId(n))),
        Err(x) => Err(x),
    };
    crate::parser::base::finish(i, q)
}

/// The X-GM-THRID attribute at the start of `i`.
pub fn msg_att_gmail_thrid(i: &[u8]) -> (r: crate::parser::base::IResult<'_, AttributeValue>)
    ensures
        crate::parser::base::iresult_is(
            i@,
            r,
            s_map(spec_kw_number_64(i@, 0, Kw::GmThrIdSp), |n: u64| SpecAttributeValue::GmailThrId(n)),
        ),
{
    let q = match p_kw_number_64(i, 0, Kw::GmThrIdSp) {
        Ok((e, n)) => Ok((e, AttributeValue::GmailThrId(n))),
        Err(x) => Err(x),
    };
    crate::parser::base::finish(i, q)
}

} // verus!
