//! A whole server response (RFC 3501 section 7): a continuation request, untagged
//! data, or a tagged completion; with ENABLED (RFC 5161) and VANISHED (RFC 7162).

use vstd::prelude::*;
use std::ops::RangeInclusive;
use crate::parser::acl::{p_acl, p_list_rights, p_my_rights, spec_acl, spec_list_rights, spec_my_rights};
use crate::parser::base::{
    byte, dv, finish, iresult_is, opt_kw, s_map, s_or, spec_byte, spec_kw, spec_opt_kw,
    spec_take_while, tag_kw, take_while, wf, Class, IResult, Kw, PRes, ParseError, SRes,
};
use crate::parser::combinators::{many0, spec_many0, SpecParser};
use crate::parser::id::{p_resp_id, spec_resp_id};
use crate::parser::mailbox_data::{p_mailbox_data, spec_mailbox_data};
use crate::parser::metadata::{p_resp_metadata, spec_resp_metadata};
use crate::parser::msg_att::{
    p_message_data_expunge, p_message_data_fetch, spec_message_data_expunge,
    spec_message_data_fetch,
};
use crate::parser::quota::{p_quota, p_quota_root, spec_quota, spec_quota_root};
use crate::parser::rfc3501::{
    p_capability_data, p_resp_text, p_status, spec_capability_data, spec_resp_text, spec_status,
};
use crate::parser::tokens::{
    p_atom, p_run1_utf8, p_sequence_set, spec_atom, spec_run1_utf8, spec_sequence_set,
    to_ranges,
};
use crate::types::{Capability, MailboxDatum, RequestId, Response, ResponseCode, Status};
use crate::types::model::{
    ranges_view, SpecCapability, SpecMailboxDatum, SpecResponse, SpecResponseCode, Text,
};

verus! {

// ----- the response kinds that stand alone -----

/// tag = 1*<any ASTRING-CHAR except "+">
pub open spec fn spec_tag(s: Seq<u8>, i: int) -> SRes<Text> {
    spec_run1_utf8(s, i, Class::Tag)
}

/// The text of a response, split as `resp_text` reads it.
pub type SpecRespText = (Option<SpecResponseCode>, Option<Text>);

fn continue_response(code: Option<ResponseCode>, information: Option<String>) -> (r: Response)
    ensures
        r.deep_view() == (SpecResponse::Continue {
            code: code.deep_view(),
            information: information.deep_view(),
        }),
{
    Response::Continue { code, information }
}

/// continue-req = "+" [SP] resp-text CRLF; the space may be missing, as some servers
/// leave it out.
pub open spec fn spec_continue_req(s: Seq<u8>, i: int) -> SRes<SpecResponse> {
    match spec_kw(s, i, Kw::Plus, false) {
        Err(x) => Err(x),
        Ok(a) => match spec_opt_kw(s, a, Kw::Sp, false) {
            Err(x) => Err(x),
            Ok(b) => match spec_resp_text(s, b) {
                Err(x) => Err(x),
                Ok((c, (code, information))) => match spec_kw(s, c, Kw::Crlf, false) {
                    Err(x) => Err(x),
                    Ok(e) => Ok((e, SpecResponse::Continue { code, information })),
                },
            },
        },
    }
}

pub fn p_continue_req(s: &[u8], i: usize) -> (r: PRes<Response>)
    requires
        i <= s@.len(),
    ensures
        dv(r) == spec_continue_req(s@, i as int),
        wf(r, s@, i as int),
{
    let a = match tag_kw(s, i, Kw::Plus, false) {
        Ok(a) => a,
        Err(x) => return Err(x),
    };
    let b = match opt_kw(s, a, Kw::Sp, false) {
        Ok(b) => b,
        Err(x) => return Err(x),
    };
    let (c, (code, information)) = match p_resp_text(s, b) {
        Ok(v) => v,
        Err(x) => return Err(x),
    };
    match tag_kw(s, c, Kw::Crlf, false) {
        Err(x) => Err(x),
        Ok(e) => Ok((e, continue_response(code, information))),
    }
}

fn done_response(
    tag: String,
    status: Status,
    code: Option<ResponseCode>,
    information: Option<String>,
) -> (r: Response)
    ensures
        r.deep_view() == (SpecResponse::Done {
            tag: tag@,
            status,
            code: code.deep_view(),
            information: information.deep_view(),
        }),
{
    Response::Done { tag: RequestId(tag), status, code, information }
}

/// tag SP status SP: the head of a tagged response.
pub open spec fn spec_tagged_head(s: Seq<u8>, i: int) -> SRes<(Text, Status)> {
    match spec_tag(s, i) {
        Err(x) => Err(x),
        Ok((a, tag)) => match spec_kw(s, a, Kw::Sp, false) {
            Err(x) => Err(x),
            Ok(b) => match spec_status(s, b) {
                Err(x) => Err(x),
                Ok((c, status)) => match spec_kw(s, c, Kw::Sp, false) {
                    Err(x) => Err(x),
                    Ok(d) => Ok((d, (tag, status))),
                },
            },
        },
    }
}

fn p_tagged_head(s: &[u8], i: usize) -> (r: PRes<(String, Status)>)
    requires
        i <= s@.len(),
    ensures
        dv(r) == spec_tagged_head(s@, i as int),
        wf(r, s@, i as int),
{
    let (a, tag) = match p_run1_utf8(s, i, Class::Tag) {
        Ok(v) => v,
        Err(x) => return Err(x),
    };
    let b = match tag_kw(s, a, Kw::Sp, false) {
        Ok(b) => b,
        Err(x) => return Err(x),
    };
    let (c, status) = match p_status(s, b) {
        Ok(v) => v,
        Err(x) => return Err(x),
    };
    match tag_kw(s, c, Kw::Sp, false) {
        Err(x) => Err(x),
        Ok(d) => Ok((d, (tag, status))),
    }
}

/// response-tagged = tag SP resp-cond-state CRLF
pub open spec fn spec_response_tagged(s: Seq<u8>, i: int) -> SRes<SpecResponse> {
    match spec_tagged_head(s, i) {
        Err(x) => Err(x),
        Ok((a, (tag, status))) => match spec_resp_text(s, a) {
            Err(x) => Err(x),
            Ok((b, (code, information))) => match spec_kw(s, b, Kw::Crlf, false) {
                Err(x) => Err(x),
                Ok(e) => Ok((e, SpecResponse::Done { tag, status, code, information })),
            },
        },
    }
}

pub fn p_response_tagged(s: &[u8], i: usize) -> (r: PRes<Response>)
    requires
        i <= s@.len(),
    ensures
        dv(r) == spec_response_tagged(s@, i as int),
        wf(r, s@, i as int),
{
    let (a, (tag, status)) = match p_tagged_head(s, i) {
        Ok(v) => v,
        Err(x) => return Err(x),
    };
    let (b, (code, information)) = match p_resp_text(s, a) {
        Ok(v) => v,
        Err(x) => return Err(x),
    };
    match tag_kw(s, b, Kw::Crlf, false) {
        Err(x) => Err(x),
        Ok(e) => Ok((e, done_response(tag, status, code, information))),
    }
}

fn data_response(
    status: Status,
    code: Option<ResponseCode>,
    information: Option<String>,
) -> (r: Response)
    ensures
        r.deep_view() == (SpecResponse::Data {
            status,
            code: code.deep_view(),
            information: information.deep_view(),
        }),
{
    Response::Data { status, code, information }
}

/// resp-cond = status [SP resp-text]: the text may be missing, as in "BYE" alone.
pub open spec fn spec_resp_cond(s: Seq<u8>, i: int) -> SRes<SpecResponse> {
    match spec_status(s, i) {
        Err(x) => Err(x),
        Ok((a, status)) => {
            let bare = Ok((a, SpecResponse::Data { status, code: None, information: None }));
            match spec_kw(s, a, Kw::Sp, false) {
                Ok(b) => match spec_resp_text(s, b) {
                    Ok((e, (code, information))) => Ok(
                        (e, SpecResponse::Data { status, code, information }),
                    ),
                    Err(ParseError::Error) => bare,
                    Err(x) => Err(x),
                },
                Err(ParseError::Error) => bare,
                Err(x) => Err(x),
            }
        },
    }
}

pub fn p_resp_cond(s: &[u8], i: usize) -> (r: PRes<Response>)
    requires
        i <= s@.len(),
    ensures
        dv(r) == spec_resp_cond(s@, i as int),
        wf(r, s@, i as int),
{
    let (a, status) = match p_status(s, i) {
        Ok(v) => v,
        Err(x) => return Err(x),
    };
    match tag_kw(s, a, Kw::Sp, false) {
        Ok(b) => match p_resp_text(s, b) {
            Ok((e, (code, information))) => Ok((e, data_response(status, code, information))),
            Err(ParseError::Error) => Ok((a, data_response(status, None, None))),
            Err(x) => Err(x),
        },
        Err(ParseError::Error) => Ok((a, data_response(status, None, None))),
        Err(x) => Err(x),
    }
}

/// SP atom, read as a capability.
pub open spec fn spec_sp_enabled(s: Seq<u8>, i: int) -> SRes<SpecCapability> {
    match spec_byte(s, i, 0x20) {
        Err(x) => Err(x),
        Ok(a) => s_map(spec_atom(s, a), |t: Text| SpecCapability::Atom(t)),
    }
}

fn p_sp_enabled(s: &[u8], i: usize) -> (r: PRes<Capability>)
    requires
        i <= s@.len(),
    ensures
        dv(r) == spec_sp_enabled(s@, i as int),
        wf(r, s@, i as int),
{
    let a = match byte(s, i, 0x20) {
        Ok(a) => a,
        Err(x) => return Err(x),
    };
    match p_atom(s, a) {
        Ok((e, t)) => Ok((e, Capability::Atom(t))),
        Err(x) => Err(x),
    }
}

pub open spec fn g_sp_enabled() -> SpecParser<SpecCapability> {
    |s: Seq<u8>, i: int| spec_sp_enabled(s, i)
}

fn capabilities_response(caps: Vec<Capability>) -> (r: Response)
    ensures
        r.deep_view() == SpecResponse::Capabilities(caps.deep_view()),
{
    Response::Capabilities(caps)
}

/// response-data of ENABLE: "ENABLED" *(SP capability)
pub open spec fn spec_resp_enabled(s: Seq<u8>, i: int) -> SRes<SpecResponse> {
    match spec_kw(s, i, Kw::Enabled, true) {
        Err(x) => Err(x),
        Ok(a) => s_map(
            spec_many0(s, a, g_sp_enabled()),
            |caps: Seq<SpecCapability>| SpecResponse::Capabilities(caps),
        ),
    }
}

pub fn p_resp_enabled(s: &[u8], i: usize) -> (r: PRes<Response>)
    requires
        i <= s@.len(),
    ensures
        dv(r) == spec_resp_enabled(s@, i as int),
        wf(r, s@, i as int),
{
    let a = match tag_kw(s, i, Kw::Enabled, true) {
        Ok(a) => a,
        Err(x) => return Err(x),
    };
    let f = |t: &[u8], j: usize| -> (q: PRes<Capability>)
        requires
            j <= t@.len(),
        ensures
            dv(q) == spec_sp_enabled(t@, j as int),
            wf(q, t@, j as int),
        { p_sp_enabled(t, j) };
    match many0(s, a, f, Ghost(g_sp_enabled())) {
        Ok((e, caps)) => Ok((e, capabilities_response(caps))),
        Err(x) => Err(x),
    }
}

fn vanished_response(earlier: bool, uids: Vec<RangeInclusive<u32>>) -> (r: Response)
    ensures
        r.deep_view() == (SpecResponse::Vanished { earlier, uids: ranges_view(uids@) }),
{
    Response::Vanished { earlier, uids }
}

/// "VANISHED" SP ["(EARLIER)" SP] known-uids
pub open spec fn spec_resp_vanished(s: Seq<u8>, i: int) -> SRes<SpecResponse> {
    match spec_kw(s, i, Kw::VanishedSp, true) {
        Err(x) => Err(x),
        Ok(a) => match spec_opt_kw(s, a, Kw::EarlierSp, true) {
            Err(x) => Err(x),
            Ok(b) => match spec_sequence_set(s, b) {
                Err(x) => Err(x),
                Ok((e, uids)) => Ok((e, SpecResponse::Vanished { earlier: b > a, uids })),
            },
        },
    }
}

pub fn p_resp_vanished(s: &[u8], i: usize) -> (r: PRes<Response>)
    requires
        i <= s@.len(),
    ensures
        dv(r) == spec_resp_vanished(s@, i as int),
        wf(r, s@, i as int),
{
    let a = match tag_kw(s, i, Kw::VanishedSp, true) {
        Ok(a) => a,
        Err(x) => return Err(x),
    };
    let b = match opt_kw(s, a, Kw::EarlierSp, true) {
        Ok(b) => b,
        Err(x) => return Err(x),
    };
    match p_sequence_set(s, b) {
        Ok((e, uids)) => {
            let ranges = to_ranges(&uids);
            proof {
                assert(uids.deep_view() =~= uids@);
            }
            Ok((e, vanished_response(b > a, ranges)))
        },
        Err(x) => Err(x),
    }
}

// ----- untagged data -----

fn mailbox_data_response(d: MailboxDatum) -> (r: Response)
    ensures
        r.deep_view() == SpecResponse::MailboxData(d.deep_view()),
{
    Response::MailboxData(d)
}

/// The kinds of untagged data of RFC 3501 ...
pub open spec fn spec_data_body_a(s: Seq<u8>, i: int) -> SRes<SpecResponse> {
    s_or(spec_resp_cond(s, i),
    s_or(s_map(spec_mailbox_data(s, i), |d: SpecMailboxDatum| SpecResponse::MailboxData(d)),
    s_or(spec_message_data_expunge(s, i),
    s_or(spec_message_data_fetch(s, i),
    s_map(spec_capability_data(s, i), |c: Seq<SpecCapability>| SpecResponse::Capabilities(c))))))
}

/// ... then those of METADATA, ENABLE, QUOTA and ID ...
pub open spec fn spec_data_body_b(s: Seq<u8>, i: int) -> SRes<SpecResponse> {
    s_or(spec_resp_metadata(s, i),
    s_or(spec_resp_enabled(s, i),
    s_or(spec_quota(s, i),
    s_or(spec_quota_root(s, i),
    spec_resp_id(s, i)))))
}

/// ... then those of ACL and QRESYNC.
pub open spec fn spec_data_body_c(s: Seq<u8>, i: int) -> SRes<SpecResponse> {
    s_or(spec_acl(s, i),
    s_or(spec_list_rights(s, i),
    s_or(spec_my_rights(s, i),
    spec_resp_vanished(s, i))))
}

/// The untagged data after "* ", its kinds tried in this order.
pub open spec fn spec_data_body(s: Seq<u8>, i: int) -> SRes<SpecResponse> {
    s_or(spec_data_body_a(s, i), s_or(spec_data_body_b(s, i), spec_data_body_c(s, i)))
}

fn p_data_body_a(s: &[u8], i: usize) -> (r: PRes<Response>)
    requires
        i <= s@.len(),
    ensures
        dv(r) == spec_data_body_a(s@, i as int),
        wf(r, s@, i as int),
{
    match p_resp_cond(s, i) {
        Err(ParseError::Error) => {},
        r => return r,
    }
    match p_mailbox_data(s, i) {
        Err(ParseError::Error) => {},
        Ok((e, d)) => return Ok((e, mailbox_data_response(d))),
        Err(x) => return Err(x),
    }
    match p_message_data_expunge(s, i) {
        Err(ParseError::Error) => {},
        r => return r,
    }
    match p_message_data_fetch(s, i) {
        Err(ParseError::Error) => {},
        r => return r,
    }
    match p_capability_data(s, i) {
        Ok((e, c)) => Ok((e, capabilities_response(c))),
        Err(x) => Err(x),
    }
}

fn p_data_body_b(s: &[u8], i: usize) -> (r: PRes<Response>)
    requires
        i <= s@.len(),
    ensures
        dv(r) == spec_data_body_b(s@, i as int),
        wf(r, s@, i as int),
{
    match p_resp_metadata(s, i) {
        Err(ParseError::Error) => {},
        r => return r,
    }
    match p_resp_enabled(s, i) {
        Err(ParseError::Error) => {},
        r => return r,
    }
    match p_quota(s, i) {
        Err(ParseError::Error) => {},
        r => return r,
    }
    match p_quota_root(s, i) {
        Err(ParseError::Error) => {},
        r => return r,
    }
    p_resp_id(s, i)
}

fn p_data_body_c(s: &[u8], i: usize) -> (r: PRes<Response>)
    requires
        i <= s@.len(),
    ensures
        dv(r) == spec_data_body_c(s@, i as int),
        wf(r, s@, i as int),
{
    match p_acl(s, i) {
        Err(ParseError::Error) => {},
        r => return r,
    }
    match p_list_rights(s, i) {
        Err(ParseError::Error) => {},
        r => return r,
    }
    match p_my_rights(s, i) {
        Err(ParseError::Error) => {},
        r => return r,
    }
    p_resp_vanished(s, i)
}

fn p_data_body(s: &[u8], i: usize) -> (r: PRes<Response>)
    requires
        i <= s@.len(),
    ensures
        dv(r) == spec_data_body(s@, i as int),
        wf(r, s@, i as int),
{
    match p_data_body_a(s, i) {
        Err(ParseError::Error) => {},
        r => return r,
    }
    match p_data_body_b(s, i) {
        Err(ParseError::Error) => {},
        r => return r,
    }
    p_data_body_c(s, i)
}

/// response-data = "*" SP (the data) *SP CRLF: spaces before the line end are
/// admitted, as some servers send them.
pub open spec fn spec_response_data(s: Seq<u8>, i: int) -> SRes<SpecResponse> {
    match spec_kw(s, i, Kw::StarSp, false) {
        Err(x) => Err(x),
        Ok(a) => match spec_data_body(s, a) {
            Err(x) => Err(x),
            Ok((b, r)) => match spec_take_while(s, b, Class::Sp) {
                Err(x) => Err(x),
                Ok(c) => match spec_kw(s, c, Kw::Crlf, false) {
                    Err(x) => Err(x),
                    Ok(e) => Ok((e, r)),
                },
            },
        },
    }
}

pub fn p_response_data(s: &[u8], i: usize) -> (r: PRes<Response>)
    requires
        i <= s@.len(),
    ensures
        dv(r) == spec_response_data(s@, i as int),
        wf(r, s@, i as int),
{
    let a = match tag_kw(s, i, Kw::StarSp, false) {
        Ok(a) => a,
        Err(x) => return Err(x),
    };
    let (b, r) = match p_data_body(s, a) {
        Ok(v) => v,
        Err(x) => return Err(x),
    };
    let c = match take_while(s, b, Class::Sp) {
        Ok(c) => c,
        Err(x) => return Err(x),
    };
    match tag_kw(s, c, Kw::Crlf, false) {
        Err(x) => Err(x),
        Ok(e) => Ok((e, r)),
    }
}

/// response = continue-req / response-data / response-tagged
pub open spec fn spec_response(s: Seq<u8>, i: int) -> SRes<SpecResponse> {
    s_or(spec_continue_req(s, i), s_or(spec_response_data(s, i), spec_response_tagged(s, i)))
}

pub fn p_response(s: &[u8], i: usize) -> (r: PRes<Response>)
    requires
        i <= s@.len(),
    ensures
        dv(r) == spec_response(s@, i as int),
        wf(r, s@, i as int),
{
    match p_continue_req(s, i) {
        Err(ParseError::Error) => {},
        r => return r,
    }
    match p_response_data(s, i) {
        Err(ParseError::Error) => {},
        r => return r,
    }
    p_response_tagged(s, i)
}

// ----- the public parsers -----

/// Parses the response at the start of `msg`: the rest of the input and the response,
/// or why none could be read.
pub fn parse_response(msg: &[u8]) -> (r: IResult<'_, Response>)
    ensures
        iresult_is(msg@, r, spec_response(msg@, 0)),
{
    finish(msg, p_response(msg, 0))
}

/// The untagged response at the start of `i`.
pub fn response_data(i: &[u8]) -> (r: IResult<'_, Response>)
    ensures
        iresult_is(i@, r, spec_response_data(i@, 0)),
{
    finish(i, p_response_data(i, 0))
}

/// The METADATA response at the start of `i`.
pub fn resp_metadata(i: &[u8]) -> (r: IResult<'_, Response>)
    ensures
        iresult_is(i@, r, spec_resp_metadata(i@, 0)),
{
    finish(i, p_resp_metadata(i, 0))
}

impl Response {
    /// Parses the response at the start of `buf`.
    pub fn from_bytes(buf: &[u8]) -> (r: IResult<'_, Response>)
        ensures
            iresult_is(buf@, r, spec_response(buf@, 0)),
    {
        parse_response(buf)
    }
}

} // verus!
