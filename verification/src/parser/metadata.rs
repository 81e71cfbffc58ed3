//! The METADATA responses (RFC 5464 section 4.4).

use vstd::prelude::*;
use crate::parser::base::{
    class_has, class_test, dv, kw, kw_bytes, lemma_scan_end, pv, s_or, scan, scan_end,
    spec_byte, spec_kw, starts_at, starts_at_exec, tag_kw, wf, wfp, Class, Kw, Needed, PPos,
    PRes, ParseError, SPos, SRes,
};
use crate::parser::combinators::{
    parenthesized_nonempty_list, sep_list0, spec_parenthesized_nonempty_list, spec_sep_list0, SpecParser, SpecRecognizer,
};
use crate::parser::tokens::{
    as_utf8, p_astring, p_nil, p_quoted, p_string, spec_astring, spec_nil, spec_quoted,
    spec_string, to_utf8,
};
use crate::types::{MailboxDatum, Metadata, Response};
use crate::types::model::{SpecMailboxDatum, SpecMetadata, SpecResponse, Text};

verus! {

// ----- entry names -----

/// The path of an entry name from `l`: "/"-separated components up to the end, a
/// space or a CR.
pub open spec fn spec_entry_path(b: Seq<u8>, l: int) -> SPos
    decreases b.len() - l,
{
    if l < 0 || l > b.len() {
        Err(ParseError::Error)
    } else if l == b.len() || b[l] == 0x20 || b[l] == 0x0d {
        Ok(l)
    } else if b[l] != 0x2f {
        Err(ParseError::Error)
    } else {
        let e = scan_end(b, l + 1, Class::EntryComponent);
        if e <= l || e >= b.len() {
            Ok(b.len() as int)
        } else {
            spec_entry_path(b, e)
        }
    }
}

/// After "/private" or "/shared" at `l`: "/comment" or "/vendor/<name>", then a path.
pub open spec fn spec_vendor_comment(b: Seq<u8>, l: int) -> SPos {
    if starts_at(b, l, kw_bytes(Kw::Comment)) {
        spec_entry_path(b, l + 8)
    } else if starts_at(b, l, kw_bytes(Kw::Vendor)) {
        if b.len() < l + 9 || b[l + 7] != 0x2f || !class_has(Class::EntryComponent, b[l + 8]) {
            Err(ParseError::Incomplete(Needed::Unknown))
        } else {
            spec_entry_path(b, l + 7)
        }
    } else {
        Err(ParseError::Error)
    }
}

/// An entry name must start with "/private" or "/shared"; a shared entry may be an
/// "/admin" entry, else it is a comment or vendor entry.
pub open spec fn spec_check_entry_name(b: Seq<u8>) -> SPos {
    if starts_at(b, 0, kw_bytes(Kw::Private)) {
        spec_vendor_comment(b, 8)
    } else if starts_at(b, 0, kw_bytes(Kw::Shared)) {
        if starts_at(b, 7, kw_bytes(Kw::Admin)) {
            spec_entry_path(b, 13)
        } else {
            spec_vendor_comment(b, 7)
        }
    } else {
        Err(ParseError::Error)
    }
}

fn entry_path(b: &[u8], l: usize) -> (r: PPos)
    requires
        l <= b@.len(),
    ensures
        pv(r) == spec_entry_path(b@, l as int),
    decreases b@.len() - l,
{
    if l == b.len() || b[l] == 0x20 || b[l] == 0x0d {
        Ok(l)
    } else if b[l] != 0x2f {
        Err(ParseError::Error)
    } else {
        let e = scan(b, l + 1, Class::EntryComponent);
        if e >= b.len() {
            Ok(b.len())
        } else {
            entry_path(b, e)
        }
    }
}

fn vendor_comment(b: &[u8], l: usize) -> (r: PPos)
    requires
        l <= b@.len(),
    ensures
        pv(r) == spec_vendor_comment(b@, l as int),
{
    assert(kw_bytes(Kw::Comment).len() == 8);
    assert(kw_bytes(Kw::Vendor).len() == 7);
    let n = b.len();
    if starts_at_exec(b, l, kw(Kw::Comment)) {
        assert(l + 8 <= n);
        entry_path(b, l + 8)
    } else if starts_at_exec(b, l, kw(Kw::Vendor)) {
        assert(l + 7 <= n);
        if n - l < 9 || b[l + 7] != 0x2f || !class_test(Class::EntryComponent, b[l + 8]) {
            Err(ParseError::Incomplete(Needed::Unknown))
        } else {
            entry_path(b, l + 7)
        }
    } else {
        Err(ParseError::Error)
    }
}

pub fn check_entry_name(b: &[u8]) -> (r: PPos)
    ensures
        pv(r) == spec_check_entry_name(b@),
{
    assert(kw_bytes(Kw::Private).len() == 8);
    assert(kw_bytes(Kw::Shared).len() == 7);
    assert(kw_bytes(Kw::Admin).len() == 6);
    if starts_at_exec(b, 0, kw(Kw::Private)) {
        vendor_comment(b, 8)
    } else if starts_at_exec(b, 0, kw(Kw::Shared)) {
        if starts_at_exec(b, 7, kw(Kw::Admin)) {
            entry_path(b, 13)
        } else {
            vendor_comment(b, 7)
        }
    } else {
        Err(ParseError::Error)
    }
}

/// entry-name: an astring that is a well-formed entry name, as UTF-8 text.
pub open spec fn spec_entry_name(s: Seq<u8>, i: int) -> SRes<Text> {
    match spec_astring(s, i) {
        Err(x) => Err(x),
        Ok((e, b)) => match spec_check_entry_name(b) {
            Err(x) => Err(x),
            Ok(_) => as_utf8(Ok((e, b))),
        },
    }
}

pub fn p_entry_name(s: &[u8], i: usize) -> (r: PRes<String>)
    requires
        i <= s@.len(),
    ensures
        dv(r) == spec_entry_name(s@, i as int),
        wf(r, s@, i as int),
{
    let (e, b) = match p_astring(s, i) {
        Ok(v) => v,
        Err(x) => return Err(x),
    };
    proof {
        assert(b.deep_view() =~= b@);
    }
    match check_entry_name(b.as_slice()) {
        Err(x) => return Err(x),
        Ok(_) => {},
    }
    to_utf8(Ok((e, b)))
}

// ----- values -----

/// A value: NIL, or a quoted or literal string as UTF-8 text.
pub open spec fn spec_meta_value(s: Seq<u8>, i: int) -> SRes<Option<Text>> {
    match spec_nil(s, i) {
        Ok(e) => Ok((e, None)),
        Err(ParseError::Error) => match as_utf8(spec_string(s, i)) {
            Ok((e, t)) => Ok((e, Some(t))),
            Err(x) => Err(x),
        },
        Err(x) => Err(x),
    }
}

fn p_meta_value(s: &[u8], i: usize) -> (r: PRes<Option<String>>)
    requires
        i <= s@.len(),
    ensures
        dv(r) == spec_meta_value(s@, i as int),
        wf(r, s@, i as int),
{
    match p_nil(s, i) {
        Ok(e) => Ok((e, None)),
        Err(ParseError::Error) => match to_utf8(p_string(s, i)) {
            Ok((e, t)) => Ok((e, Some(t))),
            Err(x) => Err(x),
        },
        Err(x) => Err(x),
    }
}

/// entry SP value
pub open spec fn spec_keyval(s: Seq<u8>, i: int) -> SRes<SpecMetadata> {
    match spec_entry_name(s, i) {
        Err(x) => Err(x),
        Ok((a, entry)) => match spec_kw(s, a, Kw::Sp, false) {
            Err(x) => Err(x),
            Ok(b) => match spec_meta_value(s, b) {
                Err(x) => Err(x),
                Ok((e, value)) => Ok((e, SpecMetadata { entry, value })),
            },
        },
    }
}

fn p_keyval(s: &[u8], i: usize) -> (r: PRes<Metadata>)
    requires
        i <= s@.len(),
    ensures
        dv(r) == spec_keyval(s@, i as int),
        wf(r, s@, i as int),
{
    let (a, entry) = match p_entry_name(s, i) {
        Ok(v) => v,
        Err(x) => return Err(x),
    };
    let b = match tag_kw(s, a, Kw::Sp, false) {
        Ok(b) => b,
        Err(x) => return Err(x),
    };
    match p_meta_value(s, b) {
        Ok((e, value)) => Ok((e, Metadata { entry, value })),
        Err(x) => Err(x),
    }
}

pub open spec fn g_keyval() -> SpecParser<SpecMetadata> {
    |s: Seq<u8>, i: int| spec_keyval(s, i)
}

pub open spec fn g_entry_name() -> SpecParser<Text> {
    |s: Seq<u8>, i: int| spec_entry_name(s, i)
}

pub open spec fn g_space() -> SpecRecognizer {
    |s: Seq<u8>, i: int| spec_kw(s, i, Kw::Sp, false)
}

/// "METADATA" SP mailbox SP, the mailbox a quoted string: the mailbox name.
pub open spec fn spec_metadata_common(s: Seq<u8>, i: int) -> SRes<Text> {
    match spec_kw(s, i, Kw::MetadataSp, true) {
        Err(x) => Err(x),
        Ok(a) => match as_utf8(spec_quoted(s, a)) {
            Err(x) => Err(x),
            Ok((b, mailbox)) => match spec_kw(s, b, Kw::Sp, false) {
                Err(x) => Err(x),
                Ok(e) => Ok((e, mailbox)),
            },
        },
    }
}

fn p_metadata_common(s: &[u8], i: usize) -> (r: PRes<String>)
    requires
        i <= s@.len(),
    ensures
        dv(r) == spec_metadata_common(s@, i as int),
        wf(r, s@, i as int),
{
    let a = match tag_kw(s, i, Kw::MetadataSp, true) {
        Ok(a) => a,
        Err(x) => return Err(x),
    };
    let (b, mailbox) = match to_utf8(p_quoted(s, a)) {
        Ok(v) => v,
        Err(x) => return Err(x),
    };
    match tag_kw(s, b, Kw::Sp, false) {
        Err(x) => Err(x),
        Ok(e) => Ok((e, mailbox)),
    }
}

fn solicited_response(mailbox: String, values: Vec<Metadata>) -> (r: Response)
    ensures
        r.deep_view() == SpecResponse::MailboxData(
            SpecMailboxDatum::MetadataSolicited { mailbox: mailbox@, values: values.deep_view() },
        ),
{
    Response::MailboxData(MailboxDatum::MetadataSolicited { mailbox, values })
}

fn unsolicited_response(mailbox: String, values: Vec<String>) -> (r: Response)
    ensures
        r.deep_view() == SpecResponse::MailboxData(
            SpecMailboxDatum::MetadataUnsolicited {
                mailbox: mailbox@,
                values: values.deep_view(),
            },
        ),
{
    Response::MailboxData(MailboxDatum::MetadataUnsolicited { mailbox, values })
}

/// The METADATA response with values: the mailbox and a list of entries and values.
pub open spec fn spec_metadata_solicited(s: Seq<u8>, i: int) -> SRes<SpecResponse> {
    match spec_metadata_common(s, i) {
        Err(x) => Err(x),
        Ok((a, mailbox)) => match spec_parenthesized_nonempty_list(s, a, g_keyval()) {
            Err(x) => Err(x),
            Ok((e, values)) => Ok(
                (e, SpecResponse::MailboxData(SpecMailboxDatum::MetadataSolicited { mailbox, values })),
            ),
        },
    }
}

pub fn p_metadata_solicited(s: &[u8], i: usize) -> (r: PRes<Response>)
    requires
        i <= s@.len(),
    ensures
        dv(r) == spec_metadata_solicited(s@, i as int),
        wf(r, s@, i as int),
{
    let (a, mailbox) = match p_metadata_common(s, i) {
        Ok(v) => v,
        Err(x) => return Err(x),
    };
    let f = |t: &[u8], j: usize| -> (q: PRes<Metadata>)
        requires
            j <= t@.len(),
        ensures
            dv(q) == spec_keyval(t@, j as int),
            wf(q, t@, j as int),
        { p_keyval(t, j) };
    match parenthesized_nonempty_list(s, a, f, Ghost(g_keyval())) {
        Ok((e, values)) => Ok((e, solicited_response(mailbox, values))),
        Err(x) => Err(x),
    }
}

/// The unsolicited METADATA response: the mailbox and the entries that changed.
pub open spec fn spec_metadata_unsolicited(s: Seq<u8>, i: int) -> SRes<SpecResponse> {
    match spec_metadata_common(s, i) {
        Err(x) => Err(x),
        Ok((a, mailbox)) => match spec_sep_list0(s, a, g_space(), g_entry_name()) {
            Err(x) => Err(x),
            Ok((e, values)) => Ok(
                (
                    e,
                    SpecResponse::MailboxData(
                        SpecMailboxDatum::MetadataUnsolicited { mailbox, values },
                    ),
                ),
            ),
        },
    }
}

pub fn p_metadata_unsolicited(s: &[u8], i: usize) -> (r: PRes<Response>)
    requires
        i <= s@.len(),
    ensures
        dv(r) == spec_metadata_unsolicited(s@, i as int),
        wf(r, s@, i as int),
{
    let (a, mailbox) = match p_metadata_common(s, i) {
        Ok(v) => v,
        Err(x) => return Err(x),
    };
    let sep = |t: &[u8], j: usize| -> (q: PPos)
        requires
            j <= t@.len(),
        ensures
            pv(q) == spec_kw(t@, j as int, Kw::Sp, false),
            wfp(q, t@, j as int),
        { tag_kw(t, j, Kw::Sp, false) };
    let f = |t: &[u8], j: usize| -> (q: PRes<String>)
        requires
            j <= t@.len(),
        ensures
            dv(q) == spec_entry_name(t@, j as int),
            wf(q, t@, j as int),
        { p_entry_name(t, j) };
    match sep_list0(s, a, sep, Ghost(g_space()), f, Ghost(g_entry_name())) {
        Ok((e, values)) => Ok((e, unsolicited_response(mailbox, values))),
        Err(x) => Err(x),
    }
}

/// A METADATA response, with values or without.
pub open spec fn spec_resp_metadata(s: Seq<u8>, i: int) -> SRes<SpecResponse> {
    s_or(spec_metadata_solicited(s, i), spec_metadata_unsolicited(s, i))
}

pub fn p_resp_metadata(s: &[u8], i: usize) -> (r: PRes<Response>)
    requires
        i <= s@.len(),
    ensures
        dv(r) == spec_resp_metadata(s@, i as int),
        wf(r, s@, i as int),
{
    match p_metadata_solicited(s, i) {
        Err(ParseError::Error) => p_metadata_unsolicited(s, i),
        r => r,
    }
}


// ----- the public parsers, at the start of an input -----

/// The METADATA response with values at the start of `i`.
pub fn metadata_solicited(i: &[u8]) -> (r: crate::parser::base::IResult<'_, Response>)
    ensures
        crate::parser::base::iresult_is(i@, r, spec_metadata_solicited(i@, 0)),
{
    crate::parser::base::finish(i, p_metadata_solicited(i, 0))
}

/// The unsolicited METADATA response at the start of `i`.
pub fn metadata_unsolicited(i: &[u8]) -> (r: crate::parser::base::IResult<'_, Response>)
    ensures
        crate::parser::base::iresult_is(i@, r, spec_metadata_unsolicited(i@, 0)),
{
    crate::parser::base::finish(i, p_metadata_unsolicited(i, 0))
}

} // verus!
