//! The response grammar of RFC 3501 (IMAP4rev1), with the extensions that its
//! responses carry: UIDPLUS (RFC 4315) and CONDSTORE (RFC 4551) response codes,
//! METADATA codes (RFC 5464).

use vstd::prelude::*;
use vstd::string::StrSliceExecFns;
use std::ops::RangeInclusive;
use crate::parser::base::{
    byte_match, class_has, class_test, lemma_kw_reads, lemma_kw_refuses, copy_bytes, dv, eq_ci, kw, kw_bytes, kw_val, pv, s_kw_val, s_or, spec_eq_ci,
    spec_kw, spec_take_while, tag_kw, take_while, utf8_opt, utf8_string, wf, wfp, Class, Kw,
    PPos, PRes, ParseError, SPos, SRes,
};
use crate::parser::combinators::{
    g_space_byte, many0, parenthesized_list, parenthesized_nonempty_list, parser_ok, sep_list1, spec_many0,
    spec_parenthesized_list, spec_parenthesized_nonempty_list, spec_sep_list1, SpecParser, SpecRecognizer,
};
use crate::parser::tokens::{
    as_utf8, p_astring, p_astring_utf8, p_atom, p_number, p_number_64, p_quoted_utf8,
    p_run1_utf8, p_text, spec_astring, spec_astring_utf8, spec_atom, spec_number,
    spec_number_64, spec_quoted_utf8, spec_run1_utf8, spec_text, to_utf8,
};
use crate::builders::command::spec_decimal;
use crate::round_trip::{ascii_bytes, lemma_number_reads_decimal};
use crate::types::{Capability, NameAttribute, ResponseCode, Status, UidSetMember};
use crate::types::model::{
    SpecCapability, SpecNameAttribute, SpecResponseCode, SpecUidSetMember, Text,
};

verus! {

// ----- status -----

pub open spec fn spec_status(s: Seq<u8>, i: int) -> SRes<Status> {
    s_or(
        s_kw_val(s, i, Kw::OkKw, true, Status::Okay),
        s_or(
            s_kw_val(s, i, Kw::No, true, Status::No),
            s_or(
                s_kw_val(s, i, Kw::Bad, true, Status::Bad),
                s_or(
                    s_kw_val(s, i, Kw::PreAuth, true, Status::PreAuth),
                    s_kw_val(s, i, Kw::Bye, true, Status::Bye),
                ),
            ),
        ),
    )
}

pub fn p_status(s: &[u8], i: usize) -> (r: PRes<Status>)
    requires
        i <= s@.len(),
    ensures
        dv(r) == spec_status(s@, i as int),
        wf(r, s@, i as int),
{
    match kw_val(s, i, Kw::OkKw, true, Status::Okay) {
        Err(ParseError::Error) => {},
        r => return r,
    }
    match kw_val(s, i, Kw::No, true, Status::No) {
        Err(ParseError::Error) => {},
        r => return r,
    }
    match kw_val(s, i, Kw::Bad, true, Status::Bad) {
        Err(ParseError::Error) => {},
        r => return r,
    }
    match kw_val(s, i, Kw::PreAuth, true, Status::PreAuth) {
        Err(ParseError::Error) => {},
        r => return r,
    }
    kw_val(s, i, Kw::Bye, true, Status::Bye)
}

// ----- mailbox -----

/// The mailbox name of a parsed astring: its UTF-8 text, where any case of INBOX
/// reads as "INBOX".
pub open spec fn spec_mailbox_of(r: SRes<Seq<u8>>) -> SRes<Text> {
    match r {
        Err(x) => Err(x),
        Ok((e, b)) => match utf8_opt(b) {
            None => Err(ParseError::Error),
            Some(c) => if spec_eq_ci(b, kw_bytes(Kw::Inbox)) {
                match utf8_opt(kw_bytes(Kw::Inbox)) {
                    Some(ib) => Ok((e, ib)),
                    None => Err(ParseError::Error),
                }
            } else {
                Ok((e, c))
            },
        },
    }
}

pub fn mailbox_of(r: PRes<Vec<u8>>) -> (q: PRes<String>)
    ensures
        dv(q) == spec_mailbox_of(dv(r)),
        r matches Ok((j, _)) ==> q matches Ok((k, _)) ==> k == j,
        r is Err ==> q is Err,
{
    let (e, b) = match r {
        Ok(v) => v,
        Err(x) => return Err(x),
    };
    let n = b.len();
    proof {
        assert(b@.subrange(0, n as int) =~= b@);
        assert(b.deep_view() =~= b@);
    }
    let c = match utf8_string(b.as_slice(), 0, n) {
        Some(c) => c,
        None => return Err(ParseError::Error),
    };
    if eq_ci(b.as_slice(), kw(Kw::Inbox)) {
        let k = kw(Kw::Inbox);
        proof {
            assert(k@.subrange(0, k@.len() as int) =~= k@);
        }
        match utf8_string(k, 0, k.len()) {
            Some(ib) => Ok((e, ib)),
            None => Err(ParseError::Error),
        }
    } else {
        Ok((e, c))
    }
}

/// mailbox = "INBOX" / astring; any case of INBOX reads as "INBOX".
pub open spec fn spec_mailbox(s: Seq<u8>, i: int) -> SRes<Text> {
    spec_mailbox_of(spec_astring(s, i))
}

pub fn p_mailbox(s: &[u8], i: usize) -> (r: PRes<String>)
    requires
        i <= s@.len(),
    ensures
        dv(r) == spec_mailbox(s@, i as int),
        wf(r, s@, i as int),
{
    mailbox_of(p_astring(s, i))
}

// ----- flags -----

/// flag-extension = "\" atom: the backslash and the atom chars that follow it, none
/// or more.
pub open spec fn spec_flag_extension(s: Seq<u8>, i: int) -> SRes<Text> {
    match spec_kw(s, i, Kw::Backslash, false) {
        Err(x) => Err(x),
        Ok(a) => match spec_take_while(s, a, Class::Atom) {
            Err(x) => Err(x),
            Ok(e) => as_utf8(Ok((e, s.subrange(i, e)))),
        },
    }
}

pub fn p_flag_extension(s: &[u8], i: usize) -> (r: PRes<String>)
    requires
        i <= s@.len(),
    ensures
        dv(r) == spec_flag_extension(s@, i as int),
        wf(r, s@, i as int),
{
    let a = match tag_kw(s, i, Kw::Backslash, false) {
        Ok(a) => a,
        Err(x) => return Err(x),
    };
    match take_while(s, a, Class::Atom) {
        Err(x) => Err(x),
        Ok(e) => to_utf8(Ok((e, copy_bytes(s, i, e)))),
    }
}

/// flag: a flag extension, or a run of ASTRING-CHAR (which admits "]" as some
/// servers send it).
pub open spec fn spec_flag(s: Seq<u8>, i: int) -> SRes<Text> {
    s_or(spec_flag_extension(s, i), spec_run1_utf8(s, i, Class::AString))
}

pub fn p_flag(s: &[u8], i: usize) -> (r: PRes<String>)
    requires
        i <= s@.len(),
    ensures
        dv(r) == spec_flag(s@, i as int),
        wf(r, s@, i as int),
{
    match p_flag_extension(s, i) {
        Err(ParseError::Error) => p_run1_utf8(s, i, Class::AString),
        r => r,
    }
}

/// flag-perm = "\*" / flag
pub open spec fn spec_flag_perm(s: Seq<u8>, i: int) -> SRes<Text> {
    s_or(
        match spec_kw(s, i, Kw::BackslashStar, false) {
            Err(x) => Err(x),
            Ok(e) => as_utf8(Ok((e, s.subrange(i, e)))),
        },
        spec_flag(s, i),
    )
}

pub fn p_flag_perm(s: &[u8], i: usize) -> (r: PRes<String>)
    requires
        i <= s@.len(),
    ensures
        dv(r) == spec_flag_perm(s@, i as int),
        wf(r, s@, i as int),
{
    let first = match tag_kw(s, i, Kw::BackslashStar, false) {
        Err(x) => Err(x),
        Ok(e) => to_utf8(Ok((e, copy_bytes(s, i, e)))),
    };
    match first {
        Err(ParseError::Error) => p_flag(s, i),
        r => r,
    }
}

pub open spec fn g_flag_perm() -> SpecParser<Text> {
    |s: Seq<u8>, i: int| spec_flag_perm(s, i)
}

/// flag-list: a parenthesized list of flags; "\*" is admitted too, as some servers send it.
pub open spec fn spec_flag_list(s: Seq<u8>, i: int) -> SRes<Seq<Text>> {
    spec_parenthesized_list(s, i, g_flag_perm())
}

pub fn p_flag_list(s: &[u8], i: usize) -> (r: PRes<Vec<String>>)
    requires
        i <= s@.len(),
    ensures
        dv(r) == spec_flag_list(s@, i as int),
        wf(r, s@, i as int),
{
    let f = |t: &[u8], j: usize| -> (q: PRes<String>)
        requires
            j <= t@.len(),
        ensures
            dv(q) == spec_flag_perm(t@, j as int),
            wf(q, t@, j as int),
        { p_flag_perm(t, j) };
    parenthesized_list(s, i, f, Ghost(g_flag_perm()))
}

// ----- name attributes -----

pub open spec fn spec_name_attribute(s: Seq<u8>, i: int) -> SRes<SpecNameAttribute> {
    s_or(s_kw_val(s, i, Kw::NoInferiors, true, SpecNameAttribute::NoInferiors),
    s_or(s_kw_val(s, i, Kw::NoSelect, true, SpecNameAttribute::NoSelect),
    s_or(s_kw_val(s, i, Kw::Marked, true, SpecNameAttribute::Marked),
    s_or(s_kw_val(s, i, Kw::Unmarked, true, SpecNameAttribute::Unmarked),
    s_or(s_kw_val(s, i, Kw::All, true, SpecNameAttribute::All),
    s_or(s_kw_val(s, i, Kw::Archive, true, SpecNameAttribute::Archive),
    s_or(s_kw_val(s, i, Kw::Drafts, true, SpecNameAttribute::Drafts),
    s_or(s_kw_val(s, i, Kw::Flagged, true, SpecNameAttribute::Flagged),
    s_or(s_kw_val(s, i, Kw::Junk, true, SpecNameAttribute::Junk),
    s_or(s_kw_val(s, i, Kw::Sent, true, SpecNameAttribute::Sent),
    s_or(s_kw_val(s, i, Kw::Trash, true, SpecNameAttribute::Trash),
    match spec_flag_extension(s, i) {
        Ok((e, t)) => Ok((e, SpecNameAttribute::Extension(t))),
        Err(x) => Err(x),
    })))))))))))
}

pub fn p_name_attribute(s: &[u8], i: usize) -> (r: PRes<NameAttribute>)
    requires
        i <= s@.len(),
    ensures
        dv(r) == spec_name_attribute(s@, i as int),
        wf(r, s@, i as int),
{
    match kw_val(s, i, Kw::NoInferiors, true, NameAttribute::NoInferiors) {
        Err(ParseError::Error) => {},
        r => return r,
    }
    match kw_val(s, i, Kw::NoSelect, true, NameAttribute::NoSelect) {
        Err(ParseError::Error) => {},
        r => return r,
    }
    match kw_val(s, i, Kw::Marked, true, NameAttribute::Marked) {
        Err(ParseError::Error) => {},
        r => return r,
    }
    match kw_val(s, i, Kw::Unmarked, true, NameAttribute::Unmarked) {
        Err(ParseError::Error) => {},
        r => return r,
    }
    match kw_val(s, i, Kw::All, true, NameAttribute::All) {
        Err(ParseError::Error) => {},
        r => return r,
    }
    match kw_val(s, i, Kw::Archive, true, NameAttribute::Archive) {
        Err(ParseError::Error) => {},
        r => return r,
    }
    match kw_val(s, i, Kw::Drafts, true, NameAttribute::Drafts) {
        Err(ParseError::Error) => {},
        r => return r,
    }
    match kw_val(s, i, Kw::Flagged, true, NameAttribute::Flagged) {
        Err(ParseError::Error) => {},
        r => return r,
    }
    match kw_val(s, i, Kw::Junk, true, NameAttribute::Junk) {
        Err(ParseError::Error) => {},
        r => return r,
    }
    match kw_val(s, i, Kw::Sent, true, NameAttribute::Sent) {
        Err(ParseError::Error) => {},
        r => return r,
    }
    match kw_val(s, i, Kw::Trash, true, NameAttribute::Trash) {
        Err(ParseError::Error) => {},
        r => return r,
    }
    match p_flag_extension(s, i) {
        Ok((e, t)) => Ok((e, NameAttribute::Extension(t))),
        Err(x) => Err(x),
    }
}

pub open spec fn g_name_attribute() -> SpecParser<SpecNameAttribute> {
    |s: Seq<u8>, i: int| spec_name_attribute(s, i)
}

pub open spec fn spec_name_attributes(s: Seq<u8>, i: int) -> SRes<Seq<SpecNameAttribute>> {
    spec_parenthesized_list(s, i, g_name_attribute())
}

pub fn p_name_attributes(s: &[u8], i: usize) -> (r: PRes<Vec<NameAttribute>>)
    requires
        i <= s@.len(),
    ensures
        dv(r) == spec_name_attributes(s@, i as int),
        wf(r, s@, i as int),
{
    let f = |t: &[u8], j: usize| -> (q: PRes<NameAttribute>)
        requires
            j <= t@.len(),
        ensures
            dv(q) == spec_name_attribute(t@, j as int),
            wf(q, t@, j as int),
        { p_name_attribute(t, j) };
    parenthesized_list(s, i, f, Ghost(g_name_attribute()))
}

// ----- capabilities -----

/// capability = "IMAP4rev1" / "AUTH=" atom / atom
pub open spec fn spec_capability(s: Seq<u8>, i: int) -> SRes<SpecCapability> {
    s_or(
        s_kw_val(s, i, Kw::Imap4rev1, true, SpecCapability::Imap4rev1),
        s_or(
            match spec_kw(s, i, Kw::AuthEq, true) {
                Err(x) => Err(x),
                Ok(a) => match spec_atom(s, a) {
                    Ok((e, t)) => Ok((e, SpecCapability::Auth(t))),
                    Err(x) => Err(x),
                },
            },
            match spec_atom(s, i) {
                Ok((e, t)) => Ok((e, SpecCapability::Atom(t))),
                Err(x) => Err(x),
            },
        ),
    )
}

pub fn p_capability(s: &[u8], i: usize) -> (r: PRes<Capability>)
    requires
        i <= s@.len(),
    ensures
        dv(r) == spec_capability(s@, i as int),
        wf(r, s@, i as int),
{
    match kw_val(s, i, Kw::Imap4rev1, true, Capability::Imap4rev1) {
        Err(ParseError::Error) => {},
        r => return r,
    }
    let auth = match tag_kw(s, i, Kw::AuthEq, true) {
        Err(x) => Err(x),
        Ok(a) => match p_atom(s, a) {
            Ok((e, t)) => Ok((e, Capability::Auth(t))),
            Err(x) => Err(x),
        },
    };
    match auth {
        Err(ParseError::Error) => {},
        r => return r,
    }
    match p_atom(s, i) {
        Ok((e, t)) => Ok((e, Capability::Atom(t))),
        Err(x) => Err(x),
    }
}

/// SP capability
pub open spec fn spec_sp_capability(s: Seq<u8>, i: int) -> SRes<SpecCapability> {
    match spec_kw(s, i, Kw::Sp, false) {
        Err(x) => Err(x),
        Ok(a) => spec_capability(s, a),
    }
}

pub fn p_sp_capability(s: &[u8], i: usize) -> (r: PRes<Capability>)
    requires
        i <= s@.len(),
    ensures
        dv(r) == spec_sp_capability(s@, i as int),
        wf(r, s@, i as int),
{
    match tag_kw(s, i, Kw::Sp, false) {
        Err(x) => Err(x),
        Ok(a) => p_capability(s, a),
    }
}

pub open spec fn g_sp_capability() -> SpecParser<SpecCapability> {
    |s: Seq<u8>, i: int| spec_sp_capability(s, i)
}

pub open spec fn has_imap4rev1(caps: Seq<SpecCapability>) -> bool {
    exists|k: int| 0 <= k < caps.len() && caps[k] == SpecCapability::Imap4rev1
}

/// capability-data = "CAPABILITY" *(SP capability), which must name IMAP4rev1.
pub open spec fn spec_capability_data(s: Seq<u8>, i: int) -> SRes<Seq<SpecCapability>> {
    match spec_kw(s, i, Kw::Capability, true) {
        Err(x) => Err(x),
        Ok(a) => match spec_many0(s, a, g_sp_capability()) {
            Err(x) => Err(x),
            Ok((e, caps)) => if has_imap4rev1(caps) {
                Ok((e, caps))
            } else {
                Err(ParseError::Error)
            },
        },
    }
}

fn contains_imap4rev1(caps: &Vec<Capability>) -> (r: bool)
    ensures
        r == has_imap4rev1(caps.deep_view()),
{
    let mut k: usize = 0;
    while k < caps.len()
        invariant
            k <= caps@.len(),
            forall|q: int| 0 <= q < k ==> caps.deep_view()[q] != SpecCapability::Imap4rev1,
        decreases caps@.len() - k,
    {
        match &caps[k] {
            Capability::Imap4rev1 => {
                assert(caps.deep_view()[k as int] == SpecCapability::Imap4rev1);
                return true;
            },
            _ => {},
        }
        k = k + 1;
    }
    false
}

pub fn p_capability_data(s: &[u8], i: usize) -> (r: PRes<Vec<Capability>>)
    requires
        i <= s@.len(),
    ensures
        dv(r) == spec_capability_data(s@, i as int),
        wf(r, s@, i as int),
{
    let a = match tag_kw(s, i, Kw::Capability, true) {
        Ok(a) => a,
        Err(x) => return Err(x),
    };
    let f = |t: &[u8], j: usize| -> (q: PRes<Capability>)
        requires
            j <= t@.len(),
        ensures
            dv(q) == spec_sp_capability(t@, j as int),
            wf(q, t@, j as int),
        { p_sp_capability(t, j) };
    let (e, caps) = match many0(s, a, f, Ghost(g_sp_capability())) {
        Ok(v) => v,
        Err(x) => return Err(x),
    };
    if contains_imap4rev1(&caps) {
        Ok((e, caps))
    } else {
        Err(ParseError::Error)
    }
}

/// The capability data at the start of `i`.
pub fn capability_data(i: &[u8]) -> (r: crate::parser::base::IResult<'_, Vec<Capability>>)
    ensures
        crate::parser::base::iresult_is(i@, r, spec_capability_data(i@, 0)),
{
    crate::parser::base::finish(i, p_capability_data(i, 0))
}

/// The mailbox name of `i`.
pub fn mailbox(i: &[u8]) -> (r: crate::parser::base::IResult<'_, String>)
    ensures
        crate::parser::base::iresult_is(i@, r, spec_mailbox(i@, 0)),
{
    crate::parser::base::finish(i, p_mailbox(i, 0))
}

// ----- UID sets (RFC 4315) -----

/// uid-range = uniqueid ":" uniqueid, in either order.
pub open spec fn spec_uid_range(s: Seq<u8>, i: int) -> SRes<SpecUidSetMember> {
    match spec_number(s, i) {
        Err(x) => Err(x),
        Ok((a, x)) => match spec_kw(s, a, Kw::Colon, false) {
            Err(e) => Err(e),
            Ok(b) => match spec_number(s, b) {
                Err(e) => Err(e),
                Ok((c, y)) => Ok(
                    (
                        c,
                        if x <= y {
                            SpecUidSetMember::UidRange(x, y)
                        } else {
                            SpecUidSetMember::UidRange(y, x)
                        },
                    ),
                ),
            },
        },
    }
}

/// A UID range is read with its smaller end first.
pub proof fn lemma_uid_range_ordered(s: Seq<u8>, i: int)
    ensures
        spec_uid_range(s, i) matches Ok((_, SpecUidSetMember::UidRange(lo, hi))) ==> lo <= hi,
        spec_uid_range(s, i) matches Ok((_, m)) ==> m is UidRange,
{
}

/// `x:y` and `y:x` are the same UID range: both are read as the values from the smaller
/// to the larger.
pub proof fn lemma_uid_range_either_order(x: u32, y: u32, rest: Seq<u8>)
    requires
        rest.len() > 0,
        !class_has(Class::Digit, rest[0]),
    ensures
        spec_uid_range(spec_decimal(x as nat) + seq![0x3au8] + spec_decimal(y as nat) + rest, 0)
            == spec_uid_range(spec_decimal(y as nat) + seq![0x3au8] + spec_decimal(x as nat) + rest, 0),
        spec_uid_range(spec_decimal(x as nat) + seq![0x3au8] + spec_decimal(y as nat) + rest, 0)
            == Ok::<(int, SpecUidSetMember), ParseError>((
                spec_decimal(x as nat).len() as int + 1 + spec_decimal(y as nat).len(),
                if x <= y { SpecUidSetMember::UidRange(x, y) } else { SpecUidSetMember::UidRange(y, x) },
            )),
{
    lemma_uid_range_reads(x, y, rest);
    lemma_uid_range_reads(y, x, rest);
}

proof fn lemma_uid_range_reads(x: u32, y: u32, rest: Seq<u8>)
    requires
        rest.len() > 0,
        !class_has(Class::Digit, rest[0]),
    ensures
        spec_uid_range(spec_decimal(x as nat) + seq![0x3au8] + spec_decimal(y as nat) + rest, 0)
            == Ok::<(int, SpecUidSetMember), ParseError>((
                spec_decimal(x as nat).len() as int + 1 + spec_decimal(y as nat).len(),
                if x <= y { SpecUidSetMember::UidRange(x, y) } else { SpecUidSetMember::UidRange(y, x) },
            )),
{
    let dx = spec_decimal(x as nat);
    let dy = spec_decimal(y as nat);
    let colon = seq![0x3au8];
    let s = dx + colon + dy + rest;
    let empty = Seq::<u8>::empty();
    lemma_number_reads_decimal(empty, x as u64, colon + dy + rest);
    assert(empty + dx + (colon + dy + rest) =~= s);
    let a = dx.len() as int;
    assert(s[a] == 0x3au8);
    assert(kw_bytes(Kw::Colon) =~= seq![0x3au8]);
    assert(byte_match(s[a], 0x3au8, false));
    assert(spec_kw(s, a, Kw::Colon, false) == Ok::<int, ParseError>(a + 1));
    lemma_number_reads_decimal(dx + colon, y as u64, rest);
    assert(dx + colon + dy + rest =~= s);
}

/// uniqueid / uid-range
pub open spec fn spec_uid_item(s: Seq<u8>, i: int) -> SRes<SpecUidSetMember> {
    s_or(
        spec_uid_range(s, i),
        match spec_number(s, i) {
            Ok((e, n)) => Ok((e, SpecUidSetMember::Uid(n))),
            Err(x) => Err(x),
        },
    )
}

pub fn p_uid_item(s: &[u8], i: usize) -> (r: PRes<UidSetMember>)
    requires
        i <= s@.len(),
    ensures
        dv(r) == spec_uid_item(s@, i as int),
        wf(r, s@, i as int),
{
    let range = match p_number(s, i) {
        Err(x) => Err(x),
        Ok((a, x)) => match tag_kw(s, a, Kw::Colon, false) {
            Err(e) => Err(e),
            Ok(b) => match p_number(s, b) {
                Err(e) => Err(e),
                Ok((c, y)) => {
                    let r = if x <= y {
                        RangeInclusive::new(x, y)
                    } else {
                        RangeInclusive::new(y, x)
                    };
                    Ok((c, UidSetMember::UidRange(r)))
                },
            },
        },
    };
    match range {
        Err(ParseError::Error) => {},
        r => return r,
    }
    match p_number(s, i) {
        Ok((e, n)) => Ok((e, UidSetMember::Uid(n))),
        Err(x) => Err(x),
    }
}

pub open spec fn g_uid_item() -> SpecParser<SpecUidSetMember> {
    |s: Seq<u8>, i: int| spec_uid_item(s, i)
}

pub open spec fn g_comma() -> SpecRecognizer {
    |s: Seq<u8>, i: int| spec_kw(s, i, Kw::Comma, false)
}

/// uid-set = (uniqueid / uid-range) *("," uid-set)
pub open spec fn spec_uid_set(s: Seq<u8>, i: int) -> SRes<Seq<SpecUidSetMember>> {
    spec_sep_list1(s, i, g_comma(), g_uid_item())
}

pub fn p_uid_set(s: &[u8], i: usize) -> (r: PRes<Vec<UidSetMember>>)
    requires
        i <= s@.len(),
    ensures
        dv(r) == spec_uid_set(s@, i as int),
        wf(r, s@, i as int),
{
    let sep = |t: &[u8], j: usize| -> (q: PPos)
        requires
            j <= t@.len(),
        ensures
            pv(q) == spec_kw(t@, j as int, Kw::Comma, false),
            wfp(q, t@, j as int),
        { tag_kw(t, j, Kw::Comma, false) };
    let item = |t: &[u8], j: usize| -> (q: PRes<UidSetMember>)
        requires
            j <= t@.len(),
        ensures
            dv(q) == spec_uid_item(t@, j as int),
            wf(q, t@, j as int),
        { p_uid_item(t, j) };
    sep_list1(s, i, sep, Ghost(g_comma()), item, Ghost(g_uid_item()))
}

// ----- response codes -----

/// A keyword, then a 32-bit number.
pub open spec fn spec_kw_number(s: Seq<u8>, i: int, k: Kw) -> SRes<u32> {
    match spec_kw(s, i, k, true) {
        Err(x) => Err(x),
        Ok(a) => spec_number(s, a),
    }
}

pub fn p_kw_number(s: &[u8], i: usize, k: Kw) -> (r: PRes<u32>)
    requires
        i <= s@.len(),
    ensures
        dv(r) == spec_kw_number(s@, i as int, k),
        wf(r, s@, i as int),
{
    match tag_kw(s, i, k, true) {
        Err(x) => Err(x),
        Ok(a) => p_number(s, a),
    }
}

/// A keyword, then a 64-bit number.
pub open spec fn spec_kw_number_64(s: Seq<u8>, i: int, k: Kw) -> SRes<u64> {
    match spec_kw(s, i, k, true) {
        Err(x) => Err(x),
        Ok(a) => spec_number_64(s, a),
    }
}

pub fn p_kw_number_64(s: &[u8], i: usize, k: Kw) -> (r: PRes<u64>)
    requires
        i <= s@.len(),
    ensures
        dv(r) == spec_kw_number_64(s@, i as int, k),
        wf(r, s@, i as int),
{
    match tag_kw(s, i, k, true) {
        Err(x) => Err(x),
        Ok(a) => p_number_64(s, a),
    }
}

pub open spec fn g_astring_utf8() -> SpecParser<Text> {
    |s: Seq<u8>, i: int| spec_astring_utf8(s, i)
}

/// "BADCHARSET" [SP "(" astring *(SP astring) ")"]
pub open spec fn spec_code_badcharset(s: Seq<u8>, i: int) -> SRes<SpecResponseCode> {
    match spec_kw(s, i, Kw::BadCharset, true) {
        Err(x) => Err(x),
        Ok(a) => match spec_kw(s, a, Kw::Sp, false) {
            Ok(b) => match spec_parenthesized_nonempty_list(s, b, g_astring_utf8()) {
                Ok((e, v)) => Ok((e, SpecResponseCode::BadCharset(Some(v)))),
                Err(ParseError::Error) => Ok((a, SpecResponseCode::BadCharset(None))),
                Err(x) => Err(x),
            },
            Err(ParseError::Error) => Ok((a, SpecResponseCode::BadCharset(None))),
            Err(x) => Err(x),
        },
    }
}

pub fn p_code_badcharset(s: &[u8], i: usize) -> (r: PRes<ResponseCode>)
    requires
        i <= s@.len(),
    ensures
        dv(r) == spec_code_badcharset(s@, i as int),
        wf(r, s@, i as int),
{
    let a = match tag_kw(s, i, Kw::BadCharset, true) {
        Ok(a) => a,
        Err(x) => return Err(x),
    };
    match tag_kw(s, a, Kw::Sp, false) {
        Ok(b) => {
            let f = |t: &[u8], j: usize| -> (q: PRes<String>)
                requires
                    j <= t@.len(),
                ensures
                    dv(q) == spec_astring_utf8(t@, j as int),
                    wf(q, t@, j as int),
                { p_astring_utf8(t, j) };
            match parenthesized_nonempty_list(s, b, f, Ghost(g_astring_utf8())) {
                Ok((e, v)) => Ok((e, ResponseCode::BadCharset(Some(v)))),
                Err(ParseError::Error) => Ok((a, ResponseCode::BadCharset(None))),
                Err(x) => Err(x),
            }
        },
        Err(ParseError::Error) => Ok((a, ResponseCode::BadCharset(None))),
        Err(x) => Err(x),
    }
}

/// "APPENDUID" SP nz-number SP uid-set
pub open spec fn spec_code_append_uid(s: Seq<u8>, i: int) -> SRes<SpecResponseCode> {
    match spec_kw_number(s, i, Kw::AppendUidSp) {
        Err(x) => Err(x),
        Ok((a, n)) => match spec_kw(s, a, Kw::Sp, false) {
            Err(x) => Err(x),
            Ok(b) => match spec_uid_set(s, b) {
                Err(x) => Err(x),
                Ok((e, v)) => Ok((e, SpecResponseCode::AppendUid(n, v))),
            },
        },
    }
}

pub fn p_code_append_uid(s: &[u8], i: usize) -> (r: PRes<ResponseCode>)
    requires
        i <= s@.len(),
    ensures
        dv(r) == spec_code_append_uid(s@, i as int),
        wf(r, s@, i as int),
{
    let (a, n) = match p_kw_number(s, i, Kw::AppendUidSp) {
        Ok(v) => v,
        Err(x) => return Err(x),
    };
    let b = match tag_kw(s, a, Kw::Sp, false) {
        Ok(b) => b,
        Err(x) => return Err(x),
    };
    match p_uid_set(s, b) {
        Err(x) => Err(x),
        Ok((e, v)) => Ok((e, ResponseCode::AppendUid(n, v))),
    }
}

/// "COPYUID" SP nz-number SP uid-set SP uid-set
pub open spec fn spec_code_copy_uid(s: Seq<u8>, i: int) -> SRes<SpecResponseCode> {
    match spec_kw_number(s, i, Kw::CopyUidSp) {
        Err(x) => Err(x),
        Ok((a, n)) => match spec_kw(s, a, Kw::Sp, false) {
            Err(x) => Err(x),
            Ok(b) => match spec_uid_set(s, b) {
                Err(x) => Err(x),
                Ok((c, v)) => match spec_kw(s, c, Kw::Sp, false) {
                    Err(x) => Err(x),
                    Ok(d) => match spec_uid_set(s, d) {
                        Err(x) => Err(x),
                        Ok((e, w)) => Ok((e, SpecResponseCode::CopyUid(n, v, w))),
                    },
                },
            },
        },
    }
}

pub fn p_code_copy_uid(s: &[u8], i: usize) -> (r: PRes<ResponseCode>)
    requires
        i <= s@.len(),
    ensures
        dv(r) == spec_code_copy_uid(s@, i as int),
        wf(r, s@, i as int),
{
    let (a, n) = match p_kw_number(s, i, Kw::CopyUidSp) {
        Ok(v) => v,
        Err(x) => return Err(x),
    };
    let b = match tag_kw(s, a, Kw::Sp, false) {
        Ok(b) => b,
        Err(x) => return Err(x),
    };
    let (c, v) = match p_uid_set(s, b) {
        Ok(v) => v,
        Err(x) => return Err(x),
    };
    let d = match tag_kw(s, c, Kw::Sp, false) {
        Ok(d) => d,
        Err(x) => return Err(x),
    };
    match p_uid_set(s, d) {
        Err(x) => Err(x),
        Ok((e, w)) => Ok((e, ResponseCode::CopyUid(n, v, w))),
    }
}

/// The codes after "PERMANENTFLAGS": a space and a list of flags.
pub open spec fn spec_code_permanent_flags(s: Seq<u8>, i: int) -> SRes<SpecResponseCode> {
    match spec_kw(s, i, Kw::PermanentFlags, true) {
        Err(x) => Err(x),
        Ok(a) => match spec_flag_list(s, a) {
            Err(x) => Err(x),
            Ok((e, v)) => Ok((e, SpecResponseCode::PermanentFlags(v))),
        },
    }
}

pub open spec fn map_code<T>(r: SRes<T>, f: spec_fn(T) -> SpecResponseCode) -> SRes<
    SpecResponseCode,
> {
    match r {
        Ok((e, v)) => Ok((e, f(v))),
        Err(x) => Err(x),
    }
}

/// resp-text-code, without its brackets: the codes of RFC 3501 ...
#[verifier::opaque]
pub open spec fn spec_code_body_a(s: Seq<u8>, i: int) -> SRes<SpecResponseCode> {
    s_or(s_kw_val(s, i, Kw::Alert, true, SpecResponseCode::Alert),
    s_or(spec_code_badcharset(s, i),
    s_or(map_code(spec_capability_data(s, i), |c: Seq<SpecCapability>| SpecResponseCode::Capabilities(c)),
    s_or(s_kw_val(s, i, Kw::ParseKw, true, SpecResponseCode::Parse),
    spec_code_permanent_flags(s, i)))))
}

/// ... continued ...
#[verifier::opaque]
pub open spec fn spec_code_body_b(s: Seq<u8>, i: int) -> SRes<SpecResponseCode> {
    s_or(map_code(spec_kw_number(s, i, Kw::UidValiditySp), |n: u32| SpecResponseCode::UidValidity(n)),
    s_or(map_code(spec_kw_number(s, i, Kw::UidNextSp), |n: u32| SpecResponseCode::UidNext(n)),
    s_or(map_code(spec_kw_number(s, i, Kw::UnseenSp), |n: u32| SpecResponseCode::Unseen(n)),
    s_or(s_kw_val(s, i, Kw::ReadOnly, true, SpecResponseCode::ReadOnly),
    s_or(s_kw_val(s, i, Kw::ReadWrite, true, SpecResponseCode::ReadWrite),
    s_kw_val(s, i, Kw::TryCreate, true, SpecResponseCode::TryCreate))))))
}

/// ... and those of CONDSTORE, UIDPLUS and METADATA.
#[verifier::opaque]
pub open spec fn spec_code_body_c(s: Seq<u8>, i: int) -> SRes<SpecResponseCode> {
    s_or(map_code(spec_kw_number_64(s, i, Kw::HighestModSeqSp), |n: u64| SpecResponseCode::HighestModSeq(n)),
    s_or(spec_code_append_uid(s, i),
    s_or(spec_code_copy_uid(s, i),
    s_or(s_kw_val(s, i, Kw::UidNotSticky, true, SpecResponseCode::UidNotSticky),
    s_or(map_code(spec_kw_number_64(s, i, Kw::MetadataLongEntries), |n: u64| SpecResponseCode::MetadataLongEntries(n)),
    s_or(map_code(spec_kw_number_64(s, i, Kw::MetadataMaxSize), |n: u64| SpecResponseCode::MetadataMaxSize(n)),
    s_or(s_kw_val(s, i, Kw::MetadataTooMany, true, SpecResponseCode::MetadataTooMany),
    s_kw_val(s, i, Kw::MetadataNoPrivate, true, SpecResponseCode::MetadataNoPrivate))))))))
}

/// resp-text-code, without its brackets, tried in this order.
pub open spec fn spec_code_body(s: Seq<u8>, i: int) -> SRes<SpecResponseCode> {
    s_or(spec_code_body_a(s, i), s_or(spec_code_body_b(s, i), spec_code_body_c(s, i)))
}

proof fn lemma_kw_then_number(kb: Seq<u8>, k: Kw, n: u64, rest: Seq<u8>)
    requires
        kb == kw_bytes(k),
        rest.len() > 0,
        !class_has(Class::Digit, rest[0]),
    ensures
        spec_kw_number_64(kb + spec_decimal(n as nat) + rest, 0, k) == Ok::<(int, u64), ParseError>(
            (kb.len() as int + spec_decimal(n as nat).len(), n),
        ),
        n <= u32::MAX ==> spec_kw_number(kb + spec_decimal(n as nat) + rest, 0, k)
            == Ok::<(int, u32), ParseError>((kb.len() as int + spec_decimal(n as nat).len(), n as u32)),
{
    let s = kb + spec_decimal(n as nat) + rest;
    assert(s.subrange(0, kb.len() as int) =~= kb);
    lemma_kw_reads(s, 0, k, true);
    lemma_number_reads_decimal(kb, n, rest);
}

proof fn lemma_code_body_a_refuses(s: Seq<u8>)
    requires
        spec_kw(s, 0, Kw::Alert, true) == Err::<int, ParseError>(ParseError::Error),
        spec_kw(s, 0, Kw::BadCharset, true) == Err::<int, ParseError>(ParseError::Error),
        spec_kw(s, 0, Kw::Capability, true) == Err::<int, ParseError>(ParseError::Error),
        spec_kw(s, 0, Kw::ParseKw, true) == Err::<int, ParseError>(ParseError::Error),
        spec_kw(s, 0, Kw::PermanentFlags, true) == Err::<int, ParseError>(ParseError::Error),
    ensures
        spec_code_body_a(s, 0) == Err::<(int, SpecResponseCode), ParseError>(ParseError::Error),
{
    reveal(spec_code_body_a);
}

proof fn lemma_code_body_b_picks(s: Seq<u8>)
    ensures
        spec_kw_number(s, 0, Kw::UidValiditySp) is Ok ==> spec_code_body_b(s, 0) == map_code(
            spec_kw_number(s, 0, Kw::UidValiditySp),
            |n: u32| SpecResponseCode::UidValidity(n),
        ),
        spec_kw(s, 0, Kw::UidValiditySp, true) == Err::<int, ParseError>(ParseError::Error)
            && spec_kw_number(s, 0, Kw::UidNextSp) is Ok ==> spec_code_body_b(s, 0) == map_code(
            spec_kw_number(s, 0, Kw::UidNextSp),
            |n: u32| SpecResponseCode::UidNext(n),
        ),
        spec_kw(s, 0, Kw::UidValiditySp, true) == Err::<int, ParseError>(ParseError::Error)
            && spec_kw(s, 0, Kw::UidNextSp, true) == Err::<int, ParseError>(ParseError::Error)
            && spec_kw_number(s, 0, Kw::UnseenSp) is Ok ==> spec_code_body_b(s, 0) == map_code(
            spec_kw_number(s, 0, Kw::UnseenSp),
            |n: u32| SpecResponseCode::Unseen(n),
        ),
        spec_kw(s, 0, Kw::UidValiditySp, true) == Err::<int, ParseError>(ParseError::Error)
            && spec_kw(s, 0, Kw::UidNextSp, true) == Err::<int, ParseError>(ParseError::Error)
            && spec_kw(s, 0, Kw::UnseenSp, true) == Err::<int, ParseError>(ParseError::Error)
            && spec_kw(s, 0, Kw::ReadOnly, true) == Err::<int, ParseError>(ParseError::Error)
            && spec_kw(s, 0, Kw::ReadWrite, true) == Err::<int, ParseError>(ParseError::Error)
            && spec_kw(s, 0, Kw::TryCreate, true) == Err::<int, ParseError>(ParseError::Error)
            ==> spec_code_body_b(s, 0) == Err::<(int, SpecResponseCode), ParseError>(ParseError::Error),
{
    reveal(spec_code_body_b);
}

proof fn lemma_code_body_c_picks(s: Seq<u8>)
    ensures
        spec_kw_number_64(s, 0, Kw::HighestModSeqSp) is Ok ==> spec_code_body_c(s, 0) == map_code(
            spec_kw_number_64(s, 0, Kw::HighestModSeqSp),
            |n: u64| SpecResponseCode::HighestModSeq(n),
        ),
{
    reveal(spec_code_body_c);
}

proof fn lemma_code_body_a_refuses_uh(s: Seq<u8>)
    requires
        s.len() > 0,
        s[0] == 0x55 || s[0] == 0x48,
    ensures
        spec_code_body_a(s, 0) == Err::<(int, SpecResponseCode), ParseError>(ParseError::Error),
{
    lemma_kw_refuses(s, 0, Kw::Alert, true, 0);
    lemma_kw_refuses(s, 0, Kw::BadCharset, true, 0);
    lemma_kw_refuses(s, 0, Kw::Capability, true, 0);
    lemma_kw_refuses(s, 0, Kw::ParseKw, true, 0);
    lemma_kw_refuses(s, 0, Kw::PermanentFlags, true, 0);
    lemma_code_body_a_refuses(s);
}

/// A response code with a number is named by its keyword: for any number `n`,
/// UIDVALIDITY, UIDNEXT and UNSEEN with the digits of `n` are read as those codes with
/// `n` (and HIGHESTMODSEQ with the digits of `m` as that code with `m`), wherever a
/// byte that is no digit follows.
#[verifier::rlimit(100)]
#[verifier::spinoff_prover]
pub proof fn lemma_code_number_keywords(n: u32, m: u64, rest: Seq<u8>)
    requires
        rest.len() > 0,
        !class_has(Class::Digit, rest[0]),
    ensures
        spec_code_body(ascii_bytes("UIDVALIDITY "@) + spec_decimal(n as nat) + rest, 0)
            == Ok::<(int, SpecResponseCode), ParseError>((
                ascii_bytes("UIDVALIDITY "@).len() as int + spec_decimal(n as nat).len(),
                SpecResponseCode::UidValidity(n),
            )),
        spec_code_body(ascii_bytes("UIDNEXT "@) + spec_decimal(n as nat) + rest, 0)
            == Ok::<(int, SpecResponseCode), ParseError>((
                ascii_bytes("UIDNEXT "@).len() as int + spec_decimal(n as nat).len(),
                SpecResponseCode::UidNext(n),
            )),
        spec_code_body(ascii_bytes("UNSEEN "@) + spec_decimal(n as nat) + rest, 0)
            == Ok::<(int, SpecResponseCode), ParseError>((
                ascii_bytes("UNSEEN "@).len() as int + spec_decimal(n as nat).len(),
                SpecResponseCode::Unseen(n),
            )),
        spec_code_body(ascii_bytes("HIGHESTMODSEQ "@) + spec_decimal(m as nat) + rest, 0)
            == Ok::<(int, SpecResponseCode), ParseError>((
                ascii_bytes("HIGHESTMODSEQ "@).len() as int + spec_decimal(m as nat).len(),
                SpecResponseCode::HighestModSeq(m),
            )),
{
    reveal_strlit("UIDVALIDITY ");
    reveal_strlit("UIDNEXT ");
    reveal_strlit("UNSEEN ");
    reveal_strlit("HIGHESTMODSEQ ");
    let d = spec_decimal(n as nat);
    let kv = ascii_bytes("UIDVALIDITY "@);
    let kn = ascii_bytes("UIDNEXT "@);
    let ku = ascii_bytes("UNSEEN "@);
    let kh = ascii_bytes("HIGHESTMODSEQ "@);
    assert(kv =~= kw_bytes(Kw::UidValiditySp));
    assert(kn =~= kw_bytes(Kw::UidNextSp));
    assert(ku =~= kw_bytes(Kw::UnseenSp));
    assert(kh =~= kw_bytes(Kw::HighestModSeqSp));
    let sv = kv + d + rest;
    assert(sv[0] == kv[0]);
    lemma_kw_then_number(kv, Kw::UidValiditySp, n as u64, rest);
    lemma_code_body_a_refuses_uh(sv);
    lemma_code_body_b_picks(sv);
    let sn = kn + d + rest;
    assert(sn[0] == kn[0]);
    assert(sn[3] == kn[3]);
    lemma_kw_then_number(kn, Kw::UidNextSp, n as u64, rest);
    lemma_code_body_a_refuses_uh(sn);
    lemma_kw_refuses(sn, 0, Kw::UidValiditySp, true, 3);
    lemma_code_body_b_picks(sn);
    let su = ku + d + rest;
    assert(su[0] == ku[0]);
    assert(su[1] == ku[1]);
    lemma_kw_then_number(ku, Kw::UnseenSp, n as u64, rest);
    lemma_code_body_a_refuses_uh(su);
    lemma_kw_refuses(su, 0, Kw::UidValiditySp, true, 1);
    lemma_kw_refuses(su, 0, Kw::UidNextSp, true, 1);
    lemma_code_body_b_picks(su);
    let sh = kh + spec_decimal(m as nat) + rest;
    assert(sh[0] == kh[0]);
    lemma_kw_then_number(kh, Kw::HighestModSeqSp, m, rest);
    lemma_code_body_a_refuses_uh(sh);
    lemma_kw_refuses(sh, 0, Kw::UidValiditySp, true, 0);
    lemma_kw_refuses(sh, 0, Kw::UidNextSp, true, 0);
    lemma_kw_refuses(sh, 0, Kw::UnseenSp, true, 0);
    lemma_kw_refuses(sh, 0, Kw::ReadOnly, true, 0);
    lemma_kw_refuses(sh, 0, Kw::ReadWrite, true, 0);
    lemma_kw_refuses(sh, 0, Kw::TryCreate, true, 0);
    lemma_code_body_b_picks(sh);
    lemma_code_body_c_picks(sh);
}

fn p_code_body_a(s: &[u8], i: usize) -> (r: PRes<ResponseCode>)
    requires
        i <= s@.len(),
    ensures
        dv(r) == spec_code_body_a(s@, i as int),
        wf(r, s@, i as int),
{
    reveal(spec_code_body_a);
    match kw_val(s, i, Kw::Alert, true, ResponseCode::Alert) {
        Err(ParseError::Error) => {},
        r => return r,
    }
    match p_code_badcharset(s, i) {
        Err(ParseError::Error) => {},
        r => return r,
    }
    match p_capability_data(s, i) {
        Err(ParseError::Error) => {},
        Ok((e, c)) => return Ok((e, ResponseCode::Capabilities(c))),
        Err(x) => return Err(x),
    }
    match kw_val(s, i, Kw::ParseKw, true, ResponseCode::Parse) {
        Err(ParseError::Error) => {},
        r => return r,
    }
    match tag_kw(s, i, Kw::PermanentFlags, true) {
        Err(x) => Err(x),
        Ok(a) => match p_flag_list(s, a) {
            Err(x) => Err(x),
            Ok((e, v)) => Ok((e, ResponseCode::PermanentFlags(v))),
        },
    }
}

fn p_code_body_b(s: &[u8], i: usize) -> (r: PRes<ResponseCode>)
    requires
        i <= s@.len(),
    ensures
        dv(r) == spec_code_body_b(s@, i as int),
        wf(r, s@, i as int),
{
    reveal(spec_code_body_b);
    match p_kw_number(s, i, Kw::UidValiditySp) {
        Err(ParseError::Error) => {},
        Ok((e, n)) => return Ok((e, ResponseCode::UidValidity(n))),
        Err(x) => return Err(x),
    }
    match p_kw_number(s, i, Kw::UidNextSp) {
        Err(ParseError::Error) => {},
        Ok((e, n)) => return Ok((e, ResponseCode::UidNext(n))),
        Err(x) => return Err(x),
    }
    match p_kw_number(s, i, Kw::UnseenSp) {
        Err(ParseError::Error) => {},
        Ok((e, n)) => return Ok((e, ResponseCode::Unseen(n))),
        Err(x) => return Err(x),
    }
    match kw_val(s, i, Kw::ReadOnly, true, ResponseCode::ReadOnly) {
        Err(ParseError::Error) => {},
        r => return r,
    }
    match kw_val(s, i, Kw::ReadWrite, true, ResponseCode::ReadWrite) {
        Err(ParseError::Error) => {},
        r => return r,
    }
    kw_val(s, i, Kw::TryCreate, true, ResponseCode::TryCreate)
}

fn p_code_body_c(s: &[u8], i: usize) -> (r: PRes<ResponseCode>)
    requires
        i <= s@.len(),
    ensures
        dv(r) == spec_code_body_c(s@, i as int),
        wf(r, s@, i as int),
{
    reveal(spec_code_body_c);
    match p_kw_number_64(s, i, Kw::HighestModSeqSp) {
        Err(ParseError::Error) => {},
        Ok((e, n)) => return Ok((e, ResponseCode::HighestModSeq(n))),
        Err(x) => return Err(x),
    }
    match p_code_append_uid(s, i) {
        Err(ParseError::Error) => {},
        r => return r,
    }
    match p_code_copy_uid(s, i) {
        Err(ParseError::Error) => {},
        r => return r,
    }
    match kw_val(s, i, Kw::UidNotSticky, true, ResponseCode::UidNotSticky) {
        Err(ParseError::Error) => {},
        r => return r,
    }
    match p_kw_number_64(s, i, Kw::MetadataLongEntries) {
        Err(ParseError::Error) => {},
        Ok((e, n)) => return Ok((e, ResponseCode::MetadataLongEntries(n))),
        Err(x) => return Err(x),
    }
    match p_kw_number_64(s, i, Kw::MetadataMaxSize) {
        Err(ParseError::Error) => {},
        Ok((e, n)) => return Ok((e, ResponseCode::MetadataMaxSize(n))),
        Err(x) => return Err(x),
    }
    match kw_val(s, i, Kw::MetadataTooMany, true, ResponseCode::MetadataTooMany) {
        Err(ParseError::Error) => {},
        r => return r,
    }
    kw_val(s, i, Kw::MetadataNoPrivate, true, ResponseCode::MetadataNoPrivate)
}

pub fn p_code_body(s: &[u8], i: usize) -> (r: PRes<ResponseCode>)
    requires
        i <= s@.len(),
    ensures
        dv(r) == spec_code_body(s@, i as int),
        wf(r, s@, i as int),
{
    match p_code_body_a(s, i) {
        Err(ParseError::Error) => {},
        r => return r,
    }
    match p_code_body_b(s, i) {
        Err(ParseError::Error) => {},
        r => return r,
    }
    p_code_body_c(s, i)
}

/// resp-text-code, in its brackets.
pub open spec fn spec_resp_text_code(s: Seq<u8>, i: int) -> SRes<SpecResponseCode> {
    match spec_kw(s, i, Kw::LBracket, false) {
        Err(x) => Err(x),
        Ok(a) => match spec_code_body(s, a) {
            Err(x) => Err(x),
            Ok((b, c)) => match spec_kw(s, b, Kw::RBracket, false) {
                Err(x) => Err(x),
                Ok(e) => Ok((e, c)),
            },
        },
    }
}

pub fn p_resp_text_code(s: &[u8], i: usize) -> (r: PRes<ResponseCode>)
    requires
        i <= s@.len(),
    ensures
        dv(r) == spec_resp_text_code(s@, i as int),
        wf(r, s@, i as int),
{
    let a = match tag_kw(s, i, Kw::LBracket, false) {
        Ok(a) => a,
        Err(x) => return Err(x),
    };
    let (b, c) = match p_code_body(s, a) {
        Ok(v) => v,
        Err(x) => return Err(x),
    };
    match tag_kw(s, b, Kw::RBracket, false) {
        Err(x) => Err(x),
        Ok(e) => Ok((e, c)),
    }
}

/// resp-text: an optional code, then text. The information leaves out the byte after
/// a code (the space), and is `None` where the text is empty.
pub open spec fn spec_resp_text(s: Seq<u8>, i: int) -> SRes<(Option<SpecResponseCode>, Option<Text>)> {
    let code = spec_resp_text_code(s, i);
    if code matches Err(ParseError::Incomplete(_)) {
        Err(code->Err_0)
    } else {
        let a = match code {
            Ok((a, _)) => a,
            _ => i,
        };
        let c = match code {
            Ok((_, c)) => Some(c),
            _ => None,
        };
        match spec_text(s, a) {
            Err(x) => Err(x),
            Ok((e, t)) => Ok(
                (
                    e,
                    (
                        c,
                        if t.len() == 0 {
                            None
                        } else if c is Some {
                            Some(t.subrange(1, t.len() as int))
                        } else {
                            Some(t)
                        },
                    ),
                ),
            ),
        }
    }
}

pub fn p_resp_text(s: &[u8], i: usize) -> (r: PRes<(Option<ResponseCode>, Option<String>)>)
    requires
        i <= s@.len(),
    ensures
        dv(r) == spec_resp_text(s@, i as int),
        wf(r, s@, i as int),
{
    let (a, c) = match p_resp_text_code(s, i) {
        Ok((a, c)) => (a, Some(c)),
        Err(ParseError::Error) => (i, None),
        Err(x) => return Err(x),
    };
    let (e, t) = match p_text(s, a) {
        Ok(v) => v,
        Err(x) => return Err(x),
    };
    let n = t.as_str().unicode_len();
    if n == 0 {
        Ok((e, (c, None)))
    } else if c.is_some() {
        let rest = t.as_str().substring_char(1, n).to_owned();
        Ok((e, (c, Some(rest))))
    } else {
        Ok((e, (c, Some(t))))
    }
}

} // verus!
