//! The QUOTA and QUOTAROOT responses (RFC 2087 section 5).

use vstd::prelude::*;
use crate::parser::base::{
    dv, finish, iresult_is, pv, s_kw_val, s_map, s_or, space1, space1_c, spec_kw, spec_space1,
    spec_space1_c, tag_kw, kw_val, wf, wfp, IResult, Kw, PPos, PRes, ParseError, SRes,
};
use crate::parser::combinators::{
    many0, sep_list0, spec_many0, spec_sep_list0, SpecParser, SpecRecognizer,
};
use crate::parser::rfc3501::{mailbox_of, spec_mailbox_of};
use crate::parser::tokens::{
    as_utf8, p_astring_c, p_astring_utf8, p_number_64, spec_astring_c, spec_astring_utf8,
    spec_number_64, to_utf8,
};
use crate::types::{Quota, QuotaResource, QuotaResourceName, QuotaRoot, Response};
use crate::types::model::{
    SpecQuota, SpecQuotaResource, SpecQuotaResourceName, SpecQuotaRoot, SpecResponse, Text,
};

verus! {

/// The name of a resource: STORAGE, MESSAGE, or any other astring.
pub open spec fn spec_quota_resource_name(s: Seq<u8>, i: int) -> SRes<SpecQuotaResourceName> {
    s_or(s_kw_val(s, i, Kw::Storage, true, SpecQuotaResourceName::Storage),
    s_or(s_kw_val(s, i, Kw::Message, true, SpecQuotaResourceName::Message),
    s_map(spec_astring_utf8(s, i), |t: Text| SpecQuotaResourceName::Atom(t))))
}

fn p_quota_resource_name(s: &[u8], i: usize) -> (r: PRes<QuotaResourceName>)
    requires
        i <= s@.len(),
    ensures
        dv(r) == spec_quota_resource_name(s@, i as int),
        wf(r, s@, i as int),
{
    match kw_val(s, i, Kw::Storage, true, QuotaResourceName::Storage) {
        Err(ParseError::Error) => {},
        r => return r,
    }
    match kw_val(s, i, Kw::Message, true, QuotaResourceName::Message) {
        Err(ParseError::Error) => {},
        r => return r,
    }
    match p_astring_utf8(s, i) {
        Ok((e, t)) => Ok((e, QuotaResourceName::Atom(t))),
        Err(x) => Err(x),
    }
}

/// quota_resource ::= atom SP number SP number
pub open spec fn spec_quota_resource(s: Seq<u8>, i: int) -> SRes<SpecQuotaResource> {
    match spec_quota_resource_name(s, i) {
        Err(x) => Err(x),
        Ok((a, name)) => match spec_kw(s, a, Kw::Sp, false) {
            Err(x) => Err(x),
            Ok(b) => match spec_number_64(s, b) {
                Err(x) => Err(x),
                Ok((c, usage)) => match spec_kw(s, c, Kw::Sp, false) {
                    Err(x) => Err(x),
                    Ok(d) => s_map(
                        spec_number_64(s, d),
                        |limit: u64| SpecQuotaResource { name, usage, limit },
                    ),
                },
            },
        },
    }
}

fn p_quota_resource(s: &[u8], i: usize) -> (r: PRes<QuotaResource>)
    requires
        i <= s@.len(),
    ensures
        dv(r) == spec_quota_resource(s@, i as int),
        wf(r, s@, i as int),
{
    let (a, name) = match p_quota_resource_name(s, i) {
        Ok(v) => v,
        Err(x) => return Err(x),
    };
    let b = match tag_kw(s, a, Kw::Sp, false) {
        Ok(b) => b,
        Err(x) => return Err(x),
    };
    let (c, usage) = match p_number_64(s, b) {
        Ok(v) => v,
        Err(x) => return Err(x),
    };
    let d = match tag_kw(s, c, Kw::Sp, false) {
        Ok(d) => d,
        Err(x) => return Err(x),
    };
    match p_number_64(s, d) {
        Ok((e, limit)) => Ok((e, QuotaResource { name, usage, limit })),
        Err(x) => Err(x),
    }
}

pub open spec fn g_quota_resource() -> SpecParser<SpecQuotaResource> {
    |s: Seq<u8>, i: int| spec_quota_resource(s, i)
}

pub open spec fn g_space1() -> SpecRecognizer {
    |s: Seq<u8>, i: int| spec_space1(s, i)
}

/// quota_list ::= "(" #quota_resource ")", the resources separated by spaces.
pub open spec fn spec_quota_list(s: Seq<u8>, i: int) -> SRes<Seq<SpecQuotaResource>> {
    match spec_kw(s, i, Kw::LParen, false) {
        Err(x) => Err(x),
        Ok(a) => match spec_sep_list0(s, a, g_space1(), g_quota_resource()) {
            Err(x) => Err(x),
            Ok((b, v)) => match spec_kw(s, b, Kw::RParen, false) {
                Err(x) => Err(x),
                Ok(e) => Ok((e, v)),
            },
        },
    }
}

pub fn p_quota_list(s: &[u8], i: usize) -> (r: PRes<Vec<QuotaResource>>)
    requires
        i <= s@.len(),
    ensures
        dv(r) == spec_quota_list(s@, i as int),
        wf(r, s@, i as int),
{
    let a = match tag_kw(s, i, Kw::LParen, false) {
        Ok(a) => a,
        Err(x) => return Err(x),
    };
    let sep = |t: &[u8], j: usize| -> (q: PPos)
        requires
            j <= t@.len(),
        ensures
            pv(q) == spec_space1(t@, j as int),
            wfp(q, t@, j as int),
        { space1(t, j) };
    let f = |t: &[u8], j: usize| -> (q: PRes<QuotaResource>)
        requires
            j <= t@.len(),
        ensures
            dv(q) == spec_quota_resource(t@, j as int),
            wf(q, t@, j as int),
        { p_quota_resource(t, j) };
    let (b, v) = match sep_list0(s, a, sep, Ghost(g_space1()), f, Ghost(g_quota_resource())) {
        Ok(v) => v,
        Err(x) => return Err(x),
    };
    match tag_kw(s, b, Kw::RParen, false) {
        Err(x) => Err(x),
        Ok(e) => Ok((e, v)),
    }
}

fn quota_response(root_name: String, resources: Vec<QuotaResource>) -> (r: Response)
    ensures
        r.deep_view() == SpecResponse::Quota(
            SpecQuota { root_name: root_name@, resources: resources.deep_view() },
        ),
{
    Response::Quota(Quota { root_name, resources })
}

/// quota_response ::= "QUOTA" SP astring SP quota_list
pub open spec fn spec_quota(s: Seq<u8>, i: int) -> SRes<SpecResponse> {
    match spec_kw(s, i, Kw::QuotaKw, true) {
        Err(x) => Err(x),
        Ok(a) => match spec_space1(s, a) {
            Err(x) => Err(x),
            Ok(b) => match spec_astring_utf8(s, b) {
                Err(x) => Err(x),
                Ok((c, root_name)) => match spec_space1(s, c) {
                    Err(x) => Err(x),
                    Ok(d) => s_map(
                        spec_quota_list(s, d),
                        |resources: Seq<SpecQuotaResource>|
                            SpecResponse::Quota(SpecQuota { root_name, resources }),
                    ),
                },
            },
        },
    }
}

pub fn p_quota(s: &[u8], i: usize) -> (r: PRes<Response>)
    requires
        i <= s@.len(),
    ensures
        dv(r) == spec_quota(s@, i as int),
        wf(r, s@, i as int),
{
    let a = match tag_kw(s, i, Kw::QuotaKw, true) {
        Ok(a) => a,
        Err(x) => return Err(x),
    };
    let b = match space1(s, a) {
        Ok(b) => b,
        Err(x) => return Err(x),
    };
    let (c, root_name) = match p_astring_utf8(s, b) {
        Ok(v) => v,
        Err(x) => return Err(x),
    };
    let d = match space1(s, c) {
        Ok(d) => d,
        Err(x) => return Err(x),
    };
    match p_quota_list(s, d) {
        Ok((e, resources)) => Ok((e, quota_response(root_name, resources))),
        Err(x) => Err(x),
    }
}

/// SP astring, on complete input: a quota root name.
pub open spec fn spec_sp_root_name(s: Seq<u8>, i: int) -> SRes<Text> {
    match spec_space1_c(s, i) {
        Err(x) => Err(x),
        Ok(a) => as_utf8(spec_astring_c(s, a)),
    }
}

fn p_sp_root_name(s: &[u8], i: usize) -> (r: PRes<String>)
    requires
        i <= s@.len(),
    ensures
        dv(r) == spec_sp_root_name(s@, i as int),
        wf(r, s@, i as int),
{
    match space1_c(s, i) {
        Err(x) => Err(x),
        Ok(a) => to_utf8(p_astring_c(s, a)),
    }
}

pub open spec fn g_sp_root_name() -> SpecParser<Text> {
    |s: Seq<u8>, i: int| spec_sp_root_name(s, i)
}

fn quota_root_response(mailbox_name: String, quota_root_names: Vec<String>) -> (r: Response)
    ensures
        r.deep_view() == SpecResponse::QuotaRoot(
            SpecQuotaRoot {
                mailbox_name: mailbox_name@,
                quota_root_names: quota_root_names.deep_view(),
            },
        ),
{
    Response::QuotaRoot(QuotaRoot { mailbox_name, quota_root_names })
}

/// quotaroot_response ::= "QUOTAROOT" SP mailbox *(SP astring). The names may end the
/// input: the response reads as complete where it stops.
pub open spec fn spec_quota_root(s: Seq<u8>, i: int) -> SRes<SpecResponse> {
    match spec_kw(s, i, Kw::QuotaRootKw, true) {
        Err(x) => Err(x),
        Ok(a) => match spec_space1_c(s, a) {
            Err(x) => Err(x),
            Ok(b) => match spec_mailbox_of(spec_astring_c(s, b)) {
                Err(x) => Err(x),
                Ok((c, mailbox_name)) => s_map(
                    spec_many0(s, c, g_sp_root_name()),
                    |quota_root_names: Seq<Text>|
                        SpecResponse::QuotaRoot(SpecQuotaRoot { mailbox_name, quota_root_names }),
                ),
            },
        },
    }
}

pub fn p_quota_root(s: &[u8], i: usize) -> (r: PRes<Response>)
    requires
        i <= s@.len(),
    ensures
        dv(r) == spec_quota_root(s@, i as int),
        wf(r, s@, i as int),
{
    let a = match tag_kw(s, i, Kw::QuotaRootKw, true) {
        Ok(a) => a,
        Err(x) => return Err(x),
    };
    let b = match space1_c(s, a) {
        Ok(b) => b,
        Err(x) => return Err(x),
    };
    let (c, mailbox_name) = match mailbox_of(p_astring_c(s, b)) {
        Ok(v) => v,
        Err(x) => return Err(x),
    };
    let f = |t: &[u8], j: usize| -> (q: PRes<String>)
        requires
            j <= t@.len(),
        ensures
            dv(q) == spec_sp_root_name(t@, j as int),
            wf(q, t@, j as int),
        { p_sp_root_name(t, j) };
    match many0(s, c, f, Ghost(g_sp_root_name())) {
        Ok((e, names)) => Ok((e, quota_root_response(mailbox_name, names))),
        Err(x) => Err(x),
    }
}

/// The QUOTA response at the start of `i`.
pub fn quota(i: &[u8]) -> (r: IResult<'_, Response>)
    ensures
        iresult_is(i@, r, spec_quota(i@, 0)),
{
    finish(i, p_quota(i, 0))
}

/// The list of quota resources at the start of `i`.
pub fn quota_list(i: &[u8]) -> (r: IResult<'_, Vec<QuotaResource>>)
    ensures
        iresult_is(i@, r, spec_quota_list(i@, 0)),
{
    finish(i, p_quota_list(i, 0))
}

/// The QUOTAROOT response at the start of `i`.
pub fn quota_root(i: &[u8]) -> (r: IResult<'_, Response>)
    ensures
        iresult_is(i@, r, spec_quota_root(i@, 0)),
{
    finish(i, p_quota_root(i, 0))
}

} // verus!
