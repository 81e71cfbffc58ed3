//! mailbox-data (RFC 3501 section 7.2), with the SORT (RFC 5256), CONDSTORE status
//! (RFC 4551) and Gmail additions.

use vstd::prelude::*;
use crate::parser::base::{
    class_has, dv, kw_bytes, lemma_kw_reads, lemma_kw_refuses, s_map, s_or, spec_kw, tag_kw, wf,
    Class, Kw, PRes, ParseError, SRes,
};
use crate::builders::command::spec_decimal;
use crate::round_trip::{ascii_bytes, lemma_number_reads_decimal};
use crate::parser::combinators::{
    many0, parenthesized_list, spec_many0, spec_parenthesized_list, SpecParser,
};
use crate::parser::rfc3501::{
    p_flag, p_flag_list, p_kw_number, p_kw_number_64, p_mailbox, p_name_attributes,
    spec_flag, spec_flag_list, spec_kw_number, spec_kw_number_64, spec_mailbox,
    spec_name_attributes,
};
use crate::parser::tokens::{
    p_nil, p_number, p_quoted_utf8, spec_nil, spec_number, spec_quoted_utf8,
};
use crate::types::{MailboxDatum, StatusAttribute};
use crate::types::model::{SpecMailboxDatum, Text};

verus! {

// ----- status attributes -----

/// status-att with its value, HIGHESTMODSEQ (RFC 4551) first.
pub open spec fn spec_status_att(s: Seq<u8>, i: int) -> SRes<StatusAttribute> {
    s_or(s_map(spec_kw_number_64(s, i, Kw::HighestModSeqSp), |n: u64| StatusAttribute::HighestModSeq(n)),
    s_or(s_map(spec_kw_number(s, i, Kw::MessagesSp), |n: u32| StatusAttribute::Messages(n)),
    s_or(s_map(spec_kw_number(s, i, Kw::RecentSp), |n: u32| StatusAttribute::Recent(n)),
    s_or(s_map(spec_kw_number(s, i, Kw::UidNextSp), |n: u32| StatusAttribute::UidNext(n)),
    s_or(s_map(spec_kw_number(s, i, Kw::UidValiditySp), |n: u32| StatusAttribute::UidValidity(n)),
    s_map(spec_kw_number(s, i, Kw::UnseenSp), |n: u32| StatusAttribute::Unseen(n)))))))
}

pub fn p_status_att(s: &[u8], i: usize) -> (r: PRes<StatusAttribute>)
    requires
        i <= s@.len(),
    ensures
        dv(r) == spec_status_att(s@, i as int),
        wf(r, s@, i as int),
{
    match p_kw_number_64(s, i, Kw::HighestModSeqSp) {
        Err(ParseError::Error) => {},
        Ok((e, n)) => return Ok((e, StatusAttribute::HighestModSeq(n))),
        Err(x) => return Err(x),
    }
    match p_kw_number(s, i, Kw::MessagesSp) {
        Err(ParseError::Error) => {},
        Ok((e, n)) => return Ok((e, StatusAttribute::Messages(n))),
        Err(x) => return Err(x),
    }
    match p_kw_number(s, i, Kw::RecentSp) {
        Err(ParseError::Error) => {},
        Ok((e, n)) => return Ok((e, StatusAttribute::Recent(n))),
        Err(x) => return Err(x),
    }
    match p_kw_number(s, i, Kw::UidNextSp) {
        Err(ParseError::Error) => {},
        Ok((e, n)) => return Ok((e, StatusAttribute::UidNext(n))),
        Err(x) => return Err(x),
    }
    match p_kw_number(s, i, Kw::UidValiditySp) {
        Err(ParseError::Error) => {},
        Ok((e, n)) => return Ok((e, StatusAttribute::UidValidity(n))),
        Err(x) => return Err(x),
    }
    match p_kw_number(s, i, Kw::UnseenSp) {
        Ok((e, n)) => Ok((e, StatusAttribute::Unseen(n))),
        Err(x) => Err(x),
    }
}

#[verifier::rlimit(100)]
#[verifier::spinoff_prover]
proof fn lemma_status_att_highest_mod_seq(n: u64, rest: Seq<u8>)
    requires
        rest.len() > 0,
        !class_has(Class::Digit, rest[0]),
    ensures
        spec_status_att(ascii_bytes("HIGHESTMODSEQ "@) + spec_decimal(n as nat) + rest, 0)
            == Ok::<(int, StatusAttribute), ParseError>((
                ascii_bytes("HIGHESTMODSEQ "@).len() as int + spec_decimal(n as nat).len(),
                StatusAttribute::HighestModSeq(n),
            )),
{
    let kb = ascii_bytes("HIGHESTMODSEQ "@);
    let d = spec_decimal(n as nat);
    let s = kb + d + rest;
    reveal_strlit("HIGHESTMODSEQ ");
    assert(kb =~= kw_bytes(Kw::HighestModSeqSp));
    assert(s.subrange(0, kb.len() as int) =~= kb);
    lemma_kw_reads(s, 0, Kw::HighestModSeqSp, true);
    lemma_number_reads_decimal(kb, n as u64, rest);
}

#[verifier::rlimit(100)]
#[verifier::spinoff_prover]
proof fn lemma_status_att_messages(n: u32, rest: Seq<u8>)
    requires
        rest.len() > 0,
        !class_has(Class::Digit, rest[0]),
    ensures
        spec_status_att(ascii_bytes("MESSAGES "@) + spec_decimal(n as nat) + rest, 0)
            == Ok::<(int, StatusAttribute), ParseError>((
                ascii_bytes("MESSAGES "@).len() as int + spec_decimal(n as nat).len(),
                StatusAttribute::Messages(n),
            )),
{
    let kb = ascii_bytes("MESSAGES "@);
    let d = spec_decimal(n as nat);
    let s = kb + d + rest;
    reveal_strlit("MESSAGES ");
    assert(kb =~= kw_bytes(Kw::MessagesSp));
    assert(s[0] == kb[0]);
    lemma_kw_refuses(s, 0, Kw::HighestModSeqSp, true, 0);
    assert(s.subrange(0, kb.len() as int) =~= kb);
    lemma_kw_reads(s, 0, Kw::MessagesSp, true);
    lemma_number_reads_decimal(kb, n as u64, rest);
}

#[verifier::rlimit(100)]
#[verifier::spinoff_prover]
proof fn lemma_status_att_recent(n: u32, rest: Seq<u8>)
    requires
        rest.len() > 0,
        !class_has(Class::Digit, rest[0]),
    ensures
        spec_status_att(ascii_bytes("RECENT "@) + spec_decimal(n as nat) + rest, 0)
            == Ok::<(int, StatusAttribute), ParseError>((
                ascii_bytes("RECENT "@).len() as int + spec_decimal(n as nat).len(),
                StatusAttribute::Recent(n),
            )),
{
    let kb = ascii_bytes("RECENT "@);
    let d = spec_decimal(n as nat);
    let s = kb + d + rest;
    reveal_strlit("RECENT ");
    assert(kb =~= kw_bytes(Kw::RecentSp));
    assert(s[0] == kb[0]);
    lemma_kw_refuses(s, 0, Kw::HighestModSeqSp, true, 0);
    lemma_kw_refuses(s, 0, Kw::MessagesSp, true, 0);
    assert(s.subrange(0, kb.len() as int) =~= kb);
    lemma_kw_reads(s, 0, Kw::RecentSp, true);
    lemma_number_reads_decimal(kb, n as u64, rest);
}

#[verifier::rlimit(100)]
#[verifier::spinoff_prover]
proof fn lemma_status_att_uid_next(n: u32, rest: Seq<u8>)
    requires
        rest.len() > 0,
        !class_has(Class::Digit, rest[0]),
    ensures
        spec_status_att(ascii_bytes("UIDNEXT "@) + spec_decimal(n as nat) + rest, 0)
            == Ok::<(int, StatusAttribute), ParseError>((
                ascii_bytes("UIDNEXT "@).len() as int + spec_decimal(n as nat).len(),
                StatusAttribute::UidNext(n),
            )),
{
    let kb = ascii_bytes("UIDNEXT "@);
    let d = spec_decimal(n as nat);
    let s = kb + d + rest;
    reveal_strlit("UIDNEXT ");
    assert(kb =~= kw_bytes(Kw::UidNextSp));
    assert(s[0] == kb[0]);
    lemma_kw_refuses(s, 0, Kw::HighestModSeqSp, true, 0);
    lemma_kw_refuses(s, 0, Kw::MessagesSp, true, 0);
    lemma_kw_refuses(s, 0, Kw::RecentSp, true, 0);
    assert(s.subrange(0, kb.len() as int) =~= kb);
    lemma_kw_reads(s, 0, Kw::UidNextSp, true);
    lemma_number_reads_decimal(kb, n as u64, rest);
}

#[verifier::rlimit(100)]
#[verifier::spinoff_prover]
proof fn lemma_status_att_uid_validity(n: u32, rest: Seq<u8>)
    requires
        rest.len() > 0,
        !class_has(Class::Digit, rest[0]),
    ensures
        spec_status_att(ascii_bytes("UIDVALIDITY "@) + spec_decimal(n as nat) + rest, 0)
            == Ok::<(int, StatusAttribute), ParseError>((
                ascii_bytes("UIDVALIDITY "@).len() as int + spec_decimal(n as nat).len(),
                StatusAttribute::UidValidity(n),
            )),
{
    let kb = ascii_bytes("UIDVALIDITY "@);
    let d = spec_decimal(n as nat);
    let s = kb + d + rest;
    reveal_strlit("UIDVALIDITY ");
    assert(kb =~= kw_bytes(Kw::UidValiditySp));
    assert(s[0] == kb[0]);
    assert(s[3] == kb[3]);
    lemma_kw_refuses(s, 0, Kw::HighestModSeqSp, true, 0);
    lemma_kw_refuses(s, 0, Kw::MessagesSp, true, 0);
    lemma_kw_refuses(s, 0, Kw::RecentSp, true, 0);
    lemma_kw_refuses(s, 0, Kw::UidNextSp, true, 3);
    assert(s.subrange(0, kb.len() as int) =~= kb);
    lemma_kw_reads(s, 0, Kw::UidValiditySp, true);
    lemma_number_reads_decimal(kb, n as u64, rest);
}

#[verifier::rlimit(100)]
#[verifier::spinoff_prover]
proof fn lemma_status_att_unseen(n: u32, rest: Seq<u8>)
    requires
        rest.len() > 0,
        !class_has(Class::Digit, rest[0]),
    ensures
        spec_status_att(ascii_bytes("UNSEEN "@) + spec_decimal(n as nat) + rest, 0)
            == Ok::<(int, StatusAttribute), ParseError>((
                ascii_bytes("UNSEEN "@).len() as int + spec_decimal(n as nat).len(),
                StatusAttribute::Unseen(n),
            )),
{
    let kb = ascii_bytes("UNSEEN "@);
    let d = spec_decimal(n as nat);
    let s = kb + d + rest;
    reveal_strlit("UNSEEN ");
    assert(kb =~= kw_bytes(Kw::UnseenSp));
    assert(s[0] == kb[0]);
    assert(s[1] == kb[1]);
    lemma_kw_refuses(s, 0, Kw::HighestModSeqSp, true, 0);
    lemma_kw_refuses(s, 0, Kw::MessagesSp, true, 0);
    lemma_kw_refuses(s, 0, Kw::RecentSp, true, 0);
    lemma_kw_refuses(s, 0, Kw::UidNextSp, true, 1);
    lemma_kw_refuses(s, 0, Kw::UidValiditySp, true, 1);
    assert(s.subrange(0, kb.len() as int) =~= kb);
    lemma_kw_reads(s, 0, Kw::UnseenSp, true);
    lemma_number_reads_decimal(kb, n as u64, rest);
}

/// A status attribute is named by its keyword: for any number `n`, the attribute written
/// as MESSAGES, RECENT, UIDNEXT, UIDVALIDITY or UNSEEN and the digits of `n` (and
/// HIGHESTMODSEQ and the digits of `m`) is read as that attribute with that number,
/// wherever a byte that is no digit follows.
pub proof fn lemma_status_att_keywords(n: u32, m: u64, rest: Seq<u8>)
    requires
        rest.len() > 0,
        !class_has(Class::Digit, rest[0]),
    ensures
        spec_status_att(ascii_bytes("HIGHESTMODSEQ "@) + spec_decimal(m as nat) + rest, 0)
            == Ok::<(int, StatusAttribute), ParseError>((
                ascii_bytes("HIGHESTMODSEQ "@).len() as int + spec_decimal(m as nat).len(),
                StatusAttribute::HighestModSeq(m),
            )),
        spec_status_att(ascii_bytes("MESSAGES "@) + spec_decimal(n as nat) + rest, 0)
            == Ok::<(int, StatusAttribute), ParseError>((
                ascii_bytes("MESSAGES "@).len() as int + spec_decimal(n as nat).len(),
                StatusAttribute::Messages(n),
            )),
        spec_status_att(ascii_bytes("RECENT "@) + spec_decimal(n as nat) + rest, 0)
            == Ok::<(int, StatusAttribute), ParseError>((
                ascii_bytes("RECENT "@).len() as int + spec_decimal(n as nat).len(),
                StatusAttribute::Recent(n),
            )),
        spec_status_att(ascii_bytes("UIDNEXT "@) + spec_decimal(n as nat) + rest, 0)
            == Ok::<(int, StatusAttribute), ParseError>((
                ascii_bytes("UIDNEXT "@).len() as int + spec_decimal(n as nat).len(),
                StatusAttribute::UidNext(n),
            )),
        spec_status_att(ascii_bytes("UIDVALIDITY "@) + spec_decimal(n as nat) + rest, 0)
            == Ok::<(int, StatusAttribute), ParseError>((
                ascii_bytes("UIDVALIDITY "@).len() as int + spec_decimal(n as nat).len(),
                StatusAttribute::UidValidity(n),
            )),
        spec_status_att(ascii_bytes("UNSEEN "@) + spec_decimal(n as nat) + rest, 0)
            == Ok::<(int, StatusAttribute), ParseError>((
                ascii_bytes("UNSEEN "@).len() as int + spec_decimal(n as nat).len(),
                StatusAttribute::Unseen(n),
            )),
{
    lemma_status_att_highest_mod_seq(m, rest);
    lemma_status_att_messages(n, rest);
    lemma_status_att_recent(n, rest);
    lemma_status_att_uid_next(n, rest);
    lemma_status_att_uid_validity(n, rest);
    lemma_status_att_unseen(n, rest);
}

pub open spec fn g_status_att() -> SpecParser<StatusAttribute> {
    |s: Seq<u8>, i: int| spec_status_att(s, i)
}

/// The list of status attributes; an empty list is admitted, as some servers send one.
pub open spec fn spec_status_att_list(s: Seq<u8>, i: int) -> SRes<Seq<StatusAttribute>> {
    spec_parenthesized_list(s, i, g_status_att())
}

pub fn p_status_att_list(s: &[u8], i: usize) -> (r: PRes<Vec<StatusAttribute>>)
    requires
        i <= s@.len(),
    ensures
        dv(r) == spec_status_att_list(s@, i as int),
        wf(r, s@, i as int),
{
    let f = |t: &[u8], j: usize| -> (q: PRes<StatusAttribute>)
        requires
            j <= t@.len(),
        ensures
            dv(q) == spec_status_att(t@, j as int),
            wf(q, t@, j as int),
        { p_status_att(t, j) };
    parenthesized_list(s, i, f, Ghost(g_status_att()))
}

// ----- the kinds of mailbox data -----

/// "FLAGS" SP flag-list
pub open spec fn spec_data_flags(s: Seq<u8>, i: int) -> SRes<SpecMailboxDatum> {
    match spec_kw(s, i, Kw::FlagsSp, true) {
        Err(x) => Err(x),
        Ok(a) => s_map(spec_flag_list(s, a), |v: Seq<Text>| SpecMailboxDatum::Flags(v)),
    }
}

fn p_data_flags(s: &[u8], i: usize) -> (r: PRes<MailboxDatum>)
    requires
        i <= s@.len(),
    ensures
        dv(r) == spec_data_flags(s@, i as int),
        wf(r, s@, i as int),
{
    let a = match tag_kw(s, i, Kw::FlagsSp, true) {
        Ok(a) => a,
        Err(x) => return Err(x),
    };
    match p_flag_list(s, a) {
        Ok((e, v)) => Ok((e, MailboxDatum::Flags(v))),
        Err(x) => Err(x),
    }
}

/// number, then a keyword: `number SP "EXISTS"` or `number SP "RECENT"`.
pub open spec fn spec_number_kw(s: Seq<u8>, i: int, k: Kw) -> SRes<u32> {
    match spec_number(s, i) {
        Err(x) => Err(x),
        Ok((a, n)) => match spec_kw(s, a, k, true) {
            Err(x) => Err(x),
            Ok(e) => Ok((e, n)),
        },
    }
}

pub fn p_number_kw(s: &[u8], i: usize, k: Kw) -> (r: PRes<u32>)
    requires
        i <= s@.len(),
    ensures
        dv(r) == spec_number_kw(s@, i as int, k),
        wf(r, s@, i as int),
{
    let (a, n) = match p_number(s, i) {
        Ok(v) => v,
        Err(x) => return Err(x),
    };
    match tag_kw(s, a, k, true) {
        Err(x) => Err(x),
        Ok(e) => Ok((e, n)),
    }
}

/// The hierarchy delimiter of a LIST response: a quoted string, or NIL.
pub open spec fn spec_delimiter(s: Seq<u8>, i: int) -> SRes<Option<Text>> {
    s_or(
        s_map(spec_quoted_utf8(s, i), |t: Text| Some(t)),
        match spec_nil(s, i) {
            Ok(e) => Ok((e, None)),
            Err(x) => Err(x),
        },
    )
}

fn p_delimiter(s: &[u8], i: usize) -> (r: PRes<Option<String>>)
    requires
        i <= s@.len(),
    ensures
        dv(r) == spec_delimiter(s@, i as int),
        wf(r, s@, i as int),
{
    match p_quoted_utf8(s, i) {
        Err(ParseError::Error) => {},
        Ok((e, t)) => return Ok((e, Some(t))),
        Err(x) => return Err(x),
    }
    match p_nil(s, i) {
        Ok(e) => Ok((e, None)),
        Err(x) => Err(x),
    }
}

/// mailbox-list = name attributes SP (quoted / nil) SP mailbox, after the keyword `k`.
pub open spec fn spec_data_list(s: Seq<u8>, i: int, k: Kw) -> SRes<SpecMailboxDatum> {
    match spec_kw(s, i, k, true) {
        Err(x) => Err(x),
        Ok(a) => match spec_name_attributes(s, a) {
            Err(x) => Err(x),
            Ok((b, attrs)) => match spec_kw(s, b, Kw::Sp, false) {
                Err(x) => Err(x),
                Ok(c) => match spec_delimiter(s, c) {
                    Err(x) => Err(x),
                    Ok((d, delimiter)) => match spec_kw(s, d, Kw::Sp, false) {
                        Err(x) => Err(x),
                        Ok(f) => s_map(
                            spec_mailbox(s, f),
                            |name: Text|
                                SpecMailboxDatum::List { name_attributes: attrs, delimiter, name },
                        ),
                    },
                },
            },
        },
    }
}

#[verifier::rlimit(40)]
fn p_data_list(s: &[u8], i: usize, k: Kw) -> (r: PRes<MailboxDatum>)
    requires
        i <= s@.len(),
    ensures
        dv(r) == spec_data_list(s@, i as int, k),
        wf(r, s@, i as int),
{
    let a = match tag_kw(s, i, k, true) {
        Ok(a) => a,
        Err(x) => return Err(x),
    };
    let (b, attrs) = match p_name_attributes(s, a) {
        Ok(v) => v,
        Err(x) => return Err(x),
    };
    let c = match tag_kw(s, b, Kw::Sp, false) {
        Ok(c) => c,
        Err(x) => return Err(x),
    };
    let (d, delimiter) = match p_delimiter(s, c) {
        Ok(v) => v,
        Err(x) => return Err(x),
    };
    let f = match tag_kw(s, d, Kw::Sp, false) {
        Ok(f) => f,
        Err(x) => return Err(x),
    };
    match p_mailbox(s, f) {
        Ok((e, name)) => Ok((e, MailboxDatum::List { name_attributes: attrs, delimiter, name })),
        Err(x) => Err(x),
    }
}

/// "STATUS" SP mailbox SP status-att-list
pub open spec fn spec_data_status(s: Seq<u8>, i: int) -> SRes<SpecMailboxDatum> {
    match spec_kw(s, i, Kw::StatusSp, true) {
        Err(x) => Err(x),
        Ok(a) => match spec_mailbox(s, a) {
            Err(x) => Err(x),
            Ok((b, mailbox)) => match spec_kw(s, b, Kw::Sp, false) {
                Err(x) => Err(x),
                Ok(c) => s_map(
                    spec_status_att_list(s, c),
                    |status: Seq<StatusAttribute>| SpecMailboxDatum::Status { mailbox, status },
                ),
            },
        },
    }
}

fn p_data_status(s: &[u8], i: usize) -> (r: PRes<MailboxDatum>)
    requires
        i <= s@.len(),
    ensures
        dv(r) == spec_data_status(s@, i as int),
        wf(r, s@, i as int),
{
    let a = match tag_kw(s, i, Kw::StatusSp, true) {
        Ok(a) => a,
        Err(x) => return Err(x),
    };
    let (b, mailbox) = match p_mailbox(s, a) {
        Ok(v) => v,
        Err(x) => return Err(x),
    };
    let c = match tag_kw(s, b, Kw::Sp, false) {
        Ok(c) => c,
        Err(x) => return Err(x),
    };
    match p_status_att_list(s, c) {
        Ok((e, status)) => Ok((e, MailboxDatum::Status { mailbox, status })),
        Err(x) => Err(x),
    }
}

/// SP number
pub open spec fn spec_sp_number(s: Seq<u8>, i: int) -> SRes<u32> {
    match spec_kw(s, i, Kw::Sp, false) {
        Err(x) => Err(x),
        Ok(a) => spec_number(s, a),
    }
}

pub fn p_sp_number(s: &[u8], i: usize) -> (r: PRes<u32>)
    requires
        i <= s@.len(),
    ensures
        dv(r) == spec_sp_number(s@, i as int),
        wf(r, s@, i as int),
{
    match tag_kw(s, i, Kw::Sp, false) {
        Err(x) => Err(x),
        Ok(a) => p_number(s, a),
    }
}

pub open spec fn g_sp_number() -> SpecParser<u32> {
    |s: Seq<u8>, i: int| spec_sp_number(s, i)
}

/// The keyword `k`, then *(SP number), then an optional space: the numbers of a
/// SEARCH or SORT response (a trailing space is admitted, as servers send one).
pub open spec fn spec_kw_numbers(s: Seq<u8>, i: int, k: Kw) -> SRes<Seq<u32>> {
    match spec_kw(s, i, k, true) {
        Err(x) => Err(x),
        Ok(a) => match spec_many0(s, a, g_sp_number()) {
            Err(x) => Err(x),
            Ok((b, ids)) => match spec_kw(s, b, Kw::Sp, false) {
                Ok(e) => Ok((e, ids)),
                Err(ParseError::Error) => Ok((b, ids)),
                Err(x) => Err(x),
            },
        },
    }
}

pub fn p_kw_numbers(s: &[u8], i: usize, k: Kw) -> (r: PRes<Vec<u32>>)
    requires
        i <= s@.len(),
    ensures
        dv(r) == spec_kw_numbers(s@, i as int, k),
        wf(r, s@, i as int),
{
    let a = match tag_kw(s, i, k, true) {
        Ok(a) => a,
        Err(x) => return Err(x),
    };
    let f = |t: &[u8], j: usize| -> (q: PRes<u32>)
        requires
            j <= t@.len(),
        ensures
            dv(q) == spec_sp_number(t@, j as int),
            wf(q, t@, j as int),
        { p_sp_number(t, j) };
    let (b, ids) = match many0(s, a, f, Ghost(g_sp_number())) {
        Ok(v) => v,
        Err(x) => return Err(x),
    };
    match tag_kw(s, b, Kw::Sp, false) {
        Ok(e) => Ok((e, ids)),
        Err(ParseError::Error) => Ok((b, ids)),
        Err(x) => Err(x),
    }
}

/// A Gmail label: a flag or a quoted string.
pub open spec fn spec_gmail_label(s: Seq<u8>, i: int) -> SRes<Text> {
    s_or(spec_flag(s, i), spec_quoted_utf8(s, i))
}

fn p_gmail_label(s: &[u8], i: usize) -> (r: PRes<String>)
    requires
        i <= s@.len(),
    ensures
        dv(r) == spec_gmail_label(s@, i as int),
        wf(r, s@, i as int),
{
    match p_flag(s, i) {
        Err(ParseError::Error) => p_quoted_utf8(s, i),
        r => r,
    }
}

pub open spec fn g_gmail_label() -> SpecParser<Text> {
    |s: Seq<u8>, i: int| spec_gmail_label(s, i)
}

/// "X-GM-LABELS" SP "(" labels ")"
pub open spec fn spec_gmail_label_list(s: Seq<u8>, i: int) -> SRes<Seq<Text>> {
    match spec_kw(s, i, Kw::GmLabelsSp, true) {
        Err(x) => Err(x),
        Ok(a) => spec_parenthesized_list(s, a, g_gmail_label()),
    }
}

pub fn p_gmail_label_list(s: &[u8], i: usize) -> (r: PRes<Vec<String>>)
    requires
        i <= s@.len(),
    ensures
        dv(r) == spec_gmail_label_list(s@, i as int),
        wf(r, s@, i as int),
{
    let a = match tag_kw(s, i, Kw::GmLabelsSp, true) {
        Ok(a) => a,
        Err(x) => return Err(x),
    };
    let f = |t: &[u8], j: usize| -> (q: PRes<String>)
        requires
            j <= t@.len(),
        ensures
            dv(q) == spec_gmail_label(t@, j as int),
            wf(q, t@, j as int),
        { p_gmail_label(t, j) };
    parenthesized_list(s, a, f, Ghost(g_gmail_label()))
}

// ----- mailbox-data -----

/// FLAGS, EXISTS, LIST, LSUB, STATUS, RECENT ...
#[verifier::opaque]
pub open spec fn spec_mailbox_data_a(s: Seq<u8>, i: int) -> SRes<SpecMailboxDatum> {
    s_or(spec_data_flags(s, i),
    s_or(s_map(spec_number_kw(s, i, Kw::SpExists), |n: u32| SpecMailboxDatum::Exists(n)),
    s_or(spec_data_list(s, i, Kw::ListSp),
    s_or(spec_data_list(s, i, Kw::LsubSp),
    s_or(spec_data_status(s, i),
    s_map(spec_number_kw(s, i, Kw::SpRecent), |n: u32| SpecMailboxDatum::Recent(n)))))))
}

/// ... SEARCH, the Gmail data, and SORT.
#[verifier::opaque]
pub open spec fn spec_mailbox_data_b(s: Seq<u8>, i: int) -> SRes<SpecMailboxDatum> {
    s_or(s_map(spec_kw_numbers(s, i, Kw::Search), |v: Seq<u32>| SpecMailboxDatum::Search(v)),
    s_or(s_map(spec_gmail_label_list(s, i), |v: Seq<Text>| SpecMailboxDatum::GmailLabels(v)),
    s_or(s_map(spec_kw_number_64(s, i, Kw::GmMsgIdSp), |n: u64| SpecMailboxDatum::GmailMsgId(n)),
    s_or(s_map(spec_kw_number_64(s, i, Kw::GmThrIdSp), |n: u64| SpecMailboxDatum::GmailThrId(n)),
    s_map(spec_kw_numbers(s, i, Kw::Sort), |v: Seq<u32>| SpecMailboxDatum::Sort(v))))))
}

/// mailbox-data, its kinds tried in this order.
pub open spec fn spec_mailbox_data(s: Seq<u8>, i: int) -> SRes<SpecMailboxDatum> {
    s_or(spec_mailbox_data_a(s, i), spec_mailbox_data_b(s, i))
}

proof fn lemma_mailbox_data_a_exists(s: Seq<u8>)
    requires
        spec_kw(s, 0, Kw::FlagsSp, true) == Err::<int, ParseError>(ParseError::Error),
        spec_number_kw(s, 0, Kw::SpExists) is Ok,
    ensures
        spec_mailbox_data_a(s, 0) == s_map(spec_number_kw(s, 0, Kw::SpExists), |n: u32| SpecMailboxDatum::Exists(n)),
{
    reveal(spec_mailbox_data_a);
}

proof fn lemma_mailbox_data_a_recent(s: Seq<u8>)
    requires
        spec_kw(s, 0, Kw::FlagsSp, true) == Err::<int, ParseError>(ParseError::Error),
        spec_number_kw(s, 0, Kw::SpExists) == Err::<(int, u32), ParseError>(ParseError::Error),
        spec_kw(s, 0, Kw::ListSp, true) == Err::<int, ParseError>(ParseError::Error),
        spec_kw(s, 0, Kw::LsubSp, true) == Err::<int, ParseError>(ParseError::Error),
        spec_kw(s, 0, Kw::StatusSp, true) == Err::<int, ParseError>(ParseError::Error),
        spec_number_kw(s, 0, Kw::SpRecent) is Ok,
    ensures
        spec_mailbox_data_a(s, 0) == s_map(spec_number_kw(s, 0, Kw::SpRecent), |n: u32| SpecMailboxDatum::Recent(n)),
{
    reveal(spec_mailbox_data_a);
}

proof fn lemma_count_then_kw(n: u32, kb: Seq<u8>, k: Kw, rest: Seq<u8>)
    requires
        kb == kw_bytes(k),
        kb.len() > 0,
        kb[0] == 0x20u8,
    ensures
        spec_number_kw(spec_decimal(n as nat) + kb + rest, 0, k) == Ok::<(int, u32), ParseError>(
            (spec_decimal(n as nat).len() as int + kb.len(), n),
        ),
        class_has(Class::Digit, (spec_decimal(n as nat) + kb + rest)[0]),
{
    let d = spec_decimal(n as nat);
    let s = d + kb + rest;
    let empty = Seq::<u8>::empty();
    crate::round_trip::lemma_decimal_value(n as nat);
    assert(s[0] == d[0]);
    assert((kb + rest)[0] == 0x20u8);
    lemma_number_reads_decimal(empty, n as u64, kb + rest);
    assert(empty + d + (kb + rest) =~= s);
    assert(s.subrange(d.len() as int, d.len() as int + kb.len()) =~= kb);
    lemma_kw_reads(s, d.len() as int, k, true);
}

/// The count of messages in a mailbox is read with its keyword: for any number `n`,
/// `n` EXISTS is read as `n` messages, and `n` RECENT as `n` recent messages.
#[verifier::rlimit(100)]
#[verifier::spinoff_prover]
pub proof fn lemma_mailbox_counts(n: u32, rest: Seq<u8>)
    ensures
        spec_mailbox_data(spec_decimal(n as nat) + ascii_bytes(" EXISTS"@) + rest, 0)
            == Ok::<(int, SpecMailboxDatum), ParseError>((
                spec_decimal(n as nat).len() as int + ascii_bytes(" EXISTS"@).len(),
                SpecMailboxDatum::Exists(n),
            )),
        spec_mailbox_data(spec_decimal(n as nat) + ascii_bytes(" RECENT"@) + rest, 0)
            == Ok::<(int, SpecMailboxDatum), ParseError>((
                spec_decimal(n as nat).len() as int + ascii_bytes(" RECENT"@).len(),
                SpecMailboxDatum::Recent(n),
            )),
{
    reveal_strlit(" EXISTS");
    reveal_strlit(" RECENT");
    let d = spec_decimal(n as nat);
    let ke = ascii_bytes(" EXISTS"@);
    let kr = ascii_bytes(" RECENT"@);
    assert(ke =~= kw_bytes(Kw::SpExists));
    assert(kr =~= kw_bytes(Kw::SpRecent));
    let se = d + ke + rest;
    lemma_count_then_kw(n, ke, Kw::SpExists, rest);
    lemma_kw_refuses(se, 0, Kw::FlagsSp, true, 0);
    lemma_mailbox_data_a_exists(se);
    let sr = d + kr + rest;
    lemma_count_then_kw(n, kr, Kw::SpRecent, rest);
    lemma_kw_refuses(sr, 0, Kw::FlagsSp, true, 0);
    lemma_kw_refuses(sr, 0, Kw::ListSp, true, 0);
    lemma_kw_refuses(sr, 0, Kw::LsubSp, true, 0);
    lemma_kw_refuses(sr, 0, Kw::StatusSp, true, 0);
    crate::round_trip::lemma_decimal_value(n as nat);
    assert(sr[d.len() as int + 1] == kr[1]);
    assert(spec_number_kw(sr, 0, Kw::SpExists) == Err::<(int, u32), ParseError>(ParseError::Error)) by {
        lemma_count_then_kw(n, kr, Kw::SpRecent, rest);
        lemma_kw_refuses(sr, d.len() as int, Kw::SpExists, true, 1);
    }
    lemma_mailbox_data_a_recent(sr);
}

fn p_mailbox_data_a(s: &[u8], i: usize) -> (r: PRes<MailboxDatum>)
    requires
        i <= s@.len(),
    ensures
        dv(r) == spec_mailbox_data_a(s@, i as int),
        wf(r, s@, i as int),
{
    reveal(spec_mailbox_data_a);
    match p_data_flags(s, i) {
        Err(ParseError::Error) => {},
        r => return r,
    }
    match p_number_kw(s, i, Kw::SpExists) {
        Err(ParseError::Error) => {},
        Ok((e, n)) => return Ok((e, MailboxDatum::Exists(n))),
        Err(x) => return Err(x),
    }
    match p_data_list(s, i, Kw::ListSp) {
        Err(ParseError::Error) => {},
        r => return r,
    }
    match p_data_list(s, i, Kw::LsubSp) {
        Err(ParseError::Error) => {},
        r => return r,
    }
    match p_data_status(s, i) {
        Err(ParseError::Error) => {},
        r => return r,
    }
    match p_number_kw(s, i, Kw::SpRecent) {
        Ok((e, n)) => Ok((e, MailboxDatum::Recent(n))),
        Err(x) => Err(x),
    }
}

fn p_mailbox_data_b(s: &[u8], i: usize) -> (r: PRes<MailboxDatum>)
    requires
        i <= s@.len(),
    ensures
        dv(r) == spec_mailbox_data_b(s@, i as int),
        wf(r, s@, i as int),
{
    reveal(spec_mailbox_data_b);
    match p_kw_numbers(s, i, Kw::Search) {
        Err(ParseError::Error) => {},
        Ok((e, v)) => return Ok((e, MailboxDatum::Search(v))),
        Err(x) => return Err(x),
    }
    match p_gmail_label_list(s, i) {
        Err(ParseError::Error) => {},
        Ok((e, v)) => return Ok((e, MailboxDatum::GmailLabels(v))),
        Err(x) => return Err(x),
    }
    match p_kw_number_64(s, i, Kw::GmMsgIdSp) {
        Err(ParseError::Error) => {},
        Ok((e, n)) => return Ok((e, MailboxDatum::GmailMsgId(n))),
        Err(x) => return Err(x),
    }
    match p_kw_number_64(s, i, Kw::GmThrIdSp) {
        Err(ParseError::Error) => {},
        Ok((e, n)) => return Ok((e, MailboxDatum::GmailThrId(n))),
        Err(x) => return Err(x),
    }
    match p_kw_numbers(s, i, Kw::Sort) {
        Ok((e, v)) => Ok((e, MailboxDatum::Sort(v))),
        Err(x) => Err(x),
    }
}

pub fn p_mailbox_data(s: &[u8], i: usize) -> (r: PRes<MailboxDatum>)
    requires
        i <= s@.len(),
    ensures
        dv(r) == spec_mailbox_data(s@, i as int),
        wf(r, s@, i as int),
{
    match p_mailbox_data_a(s, i) {
        Err(ParseError::Error) => p_mailbox_data_b(s, i),
        r => r,
    }
}

} // verus!
