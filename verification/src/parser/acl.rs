//! The ACL, LISTRIGHTS and MYRIGHTS responses (RFC 4314 section 3, formerly RFC 2086).

use vstd::prelude::*;
use vstd::string::StrSliceExecFns;
use crate::parser::base::{
    dv, pv, space0_c, space1_c, spec_kw, spec_space0_c, spec_space1_c, tag_kw, wf, wfp, Kw,
    PPos, PRes, SRes,
};
use crate::parser::combinators::{sep_list0, spec_sep_list0, SpecParser, SpecRecognizer};
use crate::parser::rfc3501::{p_mailbox, spec_mailbox};
use crate::parser::tokens::{p_astring_utf8, spec_astring_utf8};
use crate::types::acls::{spec_right_of_char, Acl, AclEntry, AclRight, ListRights, MyRights};
use crate::types::Response;
use crate::types::model::{SpecAcl, SpecAclEntry, SpecListRights, SpecMyRights, SpecResponse, Text};

verus! {

/// The rights that the letters of `t` name, one for each letter.
pub open spec fn spec_rights_of(t: Text) -> Seq<AclRight> {
    Seq::new(t.len(), |k: int| spec_right_of_char(t[k]))
}

/// The rights of several rights strings, in order.
pub open spec fn spec_rights_of_all(ts: Seq<Text>) -> Seq<AclRight>
    decreases ts.len(),
{
    if ts.len() == 0 {
        Seq::empty()
    } else {
        spec_rights_of_all(ts.drop_last()) + spec_rights_of(ts.last())
    }
}

/// Appends the rights that the letters of `t` name.
fn push_rights(out: &mut Vec<AclRight>, t: &String)
    ensures
        final(out)@ == old(out)@ + spec_rights_of(t@),
{
    let ghost start = out@;
    let n = t.as_str().unicode_len();
    let mut k: usize = 0;
    while k < n
        invariant
            n == t@.len(),
            k <= n,
            out@ == start + spec_rights_of(t@).take(k as int),
        decreases n - k,
    {
        let c = t.as_str().get_char(k);
        out.push(AclRight::from(c));
        proof {
            assert(spec_rights_of(t@).take(k + 1) =~= spec_rights_of(t@).take(k as int).push(
                spec_right_of_char(c),
            ));
        }
        k = k + 1;
    }
    proof {
        assert(spec_rights_of(t@).take(n as int) =~= spec_rights_of(t@));
    }
}

/// The rights that the letters of `t` name.
pub fn rights_of(t: &String) -> (r: Vec<AclRight>)
    ensures
        r@ == spec_rights_of(t@),
        r.deep_view() == spec_rights_of(t@),
{
    let mut out: Vec<AclRight> = Vec::new();
    push_rights(&mut out, t);
    proof {
        assert(Seq::<AclRight>::empty() + spec_rights_of(t@) =~= spec_rights_of(t@));
        assert(out.deep_view() =~= out@);
    }
    out
}

/// The rights of several rights strings, in order.
pub fn rights_of_all(ts: &Vec<String>) -> (r: Vec<AclRight>)
    ensures
        r@ == spec_rights_of_all(ts.deep_view()),
        r.deep_view() == spec_rights_of_all(ts.deep_view()),
{
    let mut out: Vec<AclRight> = Vec::new();
    let mut k: usize = 0;
    while k < ts.len()
        invariant
            k <= ts@.len(),
            out@ == spec_rights_of_all(ts.deep_view().take(k as int)),
        decreases ts@.len() - k,
    {
        push_rights(&mut out, &ts[k]);
        proof {
            let d = ts.deep_view();
            assert(d.take(k + 1).drop_last() =~= d.take(k as int));
        }
        k = k + 1;
    }
    proof {
        assert(ts.deep_view().take(ts@.len() as int) =~= ts.deep_view());
        assert(out.deep_view() =~= out@);
    }
    out
}

/// identifier SP rights
pub open spec fn spec_acl_entry(s: Seq<u8>, i: int) -> SRes<SpecAclEntry> {
    match spec_astring_utf8(s, i) {
        Err(x) => Err(x),
        Ok((a, identifier)) => match spec_space1_c(s, a) {
            Err(x) => Err(x),
            Ok(b) => match spec_astring_utf8(s, b) {
                Err(x) => Err(x),
                Ok((e, t)) => Ok((e, SpecAclEntry { identifier, rights: spec_rights_of(t) })),
            },
        },
    }
}

fn p_acl_entry(s: &[u8], i: usize) -> (r: PRes<AclEntry>)
    requires
        i <= s@.len(),
    ensures
        dv(r) == spec_acl_entry(s@, i as int),
        wf(r, s@, i as int),
{
    let (a, identifier) = match p_astring_utf8(s, i) {
        Ok(v) => v,
        Err(x) => return Err(x),
    };
    let b = match space1_c(s, a) {
        Ok(b) => b,
        Err(x) => return Err(x),
    };
    match p_astring_utf8(s, b) {
        Ok((e, t)) => Ok((e, AclEntry { identifier, rights: rights_of(&t) })),
        Err(x) => Err(x),
    }
}

pub open spec fn g_acl_entry() -> SpecParser<SpecAclEntry> {
    |s: Seq<u8>, i: int| spec_acl_entry(s, i)
}

pub open spec fn g_space1_c() -> SpecRecognizer {
    |s: Seq<u8>, i: int| spec_space1_c(s, i)
}

pub open spec fn g_astring_utf8_item() -> SpecParser<Text> {
    |s: Seq<u8>, i: int| spec_astring_utf8(s, i)
}

/// acl_list ::= *(SP acl_entry)
pub open spec fn spec_acl_list(s: Seq<u8>, i: int) -> SRes<Seq<SpecAclEntry>> {
    match spec_space0_c(s, i) {
        Err(x) => Err(x),
        Ok(a) => spec_sep_list0(s, a, g_space1_c(), g_acl_entry()),
    }
}

fn p_acl_list(s: &[u8], i: usize) -> (r: PRes<Vec<AclEntry>>)
    requires
        i <= s@.len(),
    ensures
        dv(r) == spec_acl_list(s@, i as int),
        wf(r, s@, i as int),
{
    let a = match space0_c(s, i) {
        Ok(a) => a,
        Err(x) => return Err(x),
    };
    let sep = |t: &[u8], j: usize| -> (q: PPos)
        requires
            j <= t@.len(),
        ensures
            pv(q) == spec_space1_c(t@, j as int),
            wfp(q, t@, j as int),
        { space1_c(t, j) };
    let f = |t: &[u8], j: usize| -> (q: PRes<AclEntry>)
        requires
            j <= t@.len(),
        ensures
            dv(q) == spec_acl_entry(t@, j as int),
            wf(q, t@, j as int),
        { p_acl_entry(t, j) };
    sep_list0(s, a, sep, Ghost(g_space1_c()), f, Ghost(g_acl_entry()))
}

fn acl_response(mailbox: String, acls: Vec<AclEntry>) -> (r: Response)
    ensures
        r.deep_view() == SpecResponse::Acl(SpecAcl { mailbox: mailbox@, acls: acls.deep_view() }),
{
    Response::Acl(Acl { mailbox, acls })
}

/// acl_response ::= "ACL" SP mailbox acl_list
pub open spec fn spec_acl(s: Seq<u8>, i: int) -> SRes<SpecResponse> {
    match spec_kw(s, i, Kw::AclKw, true) {
        Err(x) => Err(x),
        Ok(a) => match spec_space1_c(s, a) {
            Err(x) => Err(x),
            Ok(b) => match spec_mailbox(s, b) {
                Err(x) => Err(x),
                Ok((c, mailbox)) => match spec_acl_list(s, c) {
                    Err(x) => Err(x),
                    Ok((e, acls)) => Ok((e, SpecResponse::Acl(SpecAcl { mailbox, acls }))),
                },
            },
        },
    }
}

pub fn p_acl(s: &[u8], i: usize) -> (r: PRes<Response>)
    requires
        i <= s@.len(),
    ensures
        dv(r) == spec_acl(s@, i as int),
        wf(r, s@, i as int),
{
    let a = match tag_kw(s, i, Kw::AclKw, true) {
        Ok(a) => a,
        Err(x) => return Err(x),
    };
    let b = match space1_c(s, a) {
        Ok(b) => b,
        Err(x) => return Err(x),
    };
    let (c, mailbox) = match p_mailbox(s, b) {
        Ok(v) => v,
        Err(x) => return Err(x),
    };
    match p_acl_list(s, c) {
        Ok((e, acls)) => Ok((e, acl_response(mailbox, acls))),
        Err(x) => Err(x),
    }
}

/// The optional rights of LISTRIGHTS: *(SP rights), all their letters in order.
pub open spec fn spec_list_rights_optional(s: Seq<u8>, i: int) -> SRes<Seq<AclRight>> {
    match spec_space0_c(s, i) {
        Err(x) => Err(x),
        Ok(a) => match spec_sep_list0(s, a, g_space1_c(), g_astring_utf8_item()) {
            Err(x) => Err(x),
            Ok((e, items)) => Ok((e, spec_rights_of_all(items))),
        },
    }
}

fn p_list_rights_optional(s: &[u8], i: usize) -> (r: PRes<Vec<AclRight>>)
    requires
        i <= s@.len(),
    ensures
        dv(r) == spec_list_rights_optional(s@, i as int),
        wf(r, s@, i as int),
{
    let a = match space0_c(s, i) {
        Ok(a) => a,
        Err(x) => return Err(x),
    };
    let sep = |t: &[u8], j: usize| -> (q: PPos)
        requires
            j <= t@.len(),
        ensures
            pv(q) == spec_space1_c(t@, j as int),
            wfp(q, t@, j as int),
        { space1_c(t, j) };
    let f = |t: &[u8], j: usize| -> (q: PRes<String>)
        requires
            j <= t@.len(),
        ensures
            dv(q) == spec_astring_utf8(t@, j as int),
            wf(q, t@, j as int),
        { p_astring_utf8(t, j) };
    match sep_list0(s, a, sep, Ghost(g_space1_c()), f, Ghost(g_astring_utf8_item())) {
        Ok((e, items)) => {
            Ok((e, rights_of_all(&items)))
        },
        Err(x) => Err(x),
    }
}

/// The rights after `SP` in a LISTRIGHTS or MYRIGHTS response.
pub open spec fn spec_sp_rights(s: Seq<u8>, i: int) -> SRes<Seq<AclRight>> {
    match spec_space1_c(s, i) {
        Err(x) => Err(x),
        Ok(a) => match spec_astring_utf8(s, a) {
            Err(x) => Err(x),
            Ok((e, t)) => Ok((e, spec_rights_of(t))),
        },
    }
}

fn p_sp_rights(s: &[u8], i: usize) -> (r: PRes<Vec<AclRight>>)
    requires
        i <= s@.len(),
    ensures
        dv(r) == spec_sp_rights(s@, i as int),
        wf(r, s@, i as int),
{
    let a = match space1_c(s, i) {
        Ok(a) => a,
        Err(x) => return Err(x),
    };
    match p_astring_utf8(s, a) {
        Ok((e, t)) => Ok((e, rights_of(&t))),
        Err(x) => Err(x),
    }
}

/// The keyword `k`, SP, a mailbox, SP, an identifier: the head of LISTRIGHTS.
pub open spec fn spec_rights_head(s: Seq<u8>, i: int, k: Kw) -> SRes<(Text, Text)> {
    match spec_kw(s, i, k, true) {
        Err(x) => Err(x),
        Ok(a) => match spec_space1_c(s, a) {
            Err(x) => Err(x),
            Ok(b) => match spec_mailbox(s, b) {
                Err(x) => Err(x),
                Ok((c, mailbox)) => match spec_space1_c(s, c) {
                    Err(x) => Err(x),
                    Ok(d) => match spec_astring_utf8(s, d) {
                        Err(x) => Err(x),
                        Ok((e, identifier)) => Ok((e, (mailbox, identifier))),
                    },
                },
            },
        },
    }
}

fn p_rights_head(s: &[u8], i: usize, k: Kw) -> (r: PRes<(String, String)>)
    requires
        i <= s@.len(),
    ensures
        dv(r) == spec_rights_head(s@, i as int, k),
        wf(r, s@, i as int),
{
    let a = match tag_kw(s, i, k, true) {
        Ok(a) => a,
        Err(x) => return Err(x),
    };
    let b = match space1_c(s, a) {
        Ok(b) => b,
        Err(x) => return Err(x),
    };
    let (c, mailbox) = match p_mailbox(s, b) {
        Ok(v) => v,
        Err(x) => return Err(x),
    };
    let d = match space1_c(s, c) {
        Ok(d) => d,
        Err(x) => return Err(x),
    };
    match p_astring_utf8(s, d) {
        Ok((e, identifier)) => Ok((e, (mailbox, identifier))),
        Err(x) => Err(x),
    }
}

fn list_rights_response(
    mailbox: String,
    identifier: String,
    required: Vec<AclRight>,
    optional: Vec<AclRight>,
) -> (r: Response)
    ensures
        r.deep_view() == SpecResponse::ListRights(
            SpecListRights {
                mailbox: mailbox@,
                identifier: identifier@,
                required: required.deep_view(),
                optional: optional.deep_view(),
            },
        ),
{
    Response::ListRights(ListRights { mailbox, identifier, required, optional })
}

/// list_rights_response ::= "LISTRIGHTS" SP mailbox SP identifier SP required_rights
/// *(SP optional_rights)
pub open spec fn spec_list_rights(s: Seq<u8>, i: int) -> SRes<SpecResponse> {
    match spec_rights_head(s, i, Kw::ListRightsKw) {
        Err(x) => Err(x),
        Ok((a, (mailbox, identifier))) => match spec_sp_rights(s, a) {
            Err(x) => Err(x),
            Ok((b, required)) => match spec_list_rights_optional(s, b) {
                Err(x) => Err(x),
                Ok((e, optional)) => Ok(
                    (
                        e,
                        SpecResponse::ListRights(
                            SpecListRights { mailbox, identifier, required, optional },
                        ),
                    ),
                ),
            },
        },
    }
}

pub fn p_list_rights(s: &[u8], i: usize) -> (r: PRes<Response>)
    requires
        i <= s@.len(),
    ensures
        dv(r) == spec_list_rights(s@, i as int),
        wf(r, s@, i as int),
{
    let (a, (mailbox, identifier)) = match p_rights_head(s, i, Kw::ListRightsKw) {
        Ok(v) => v,
        Err(x) => return Err(x),
    };
    let (b, required) = match p_sp_rights(s, a) {
        Ok(v) => v,
        Err(x) => return Err(x),
    };
    match p_list_rights_optional(s, b) {
        Ok((e, optional)) => Ok((e, list_rights_response(mailbox, identifier, required, optional))),
        Err(x) => Err(x),
    }
}

fn my_rights_response(mailbox: String, rights: Vec<AclRight>) -> (r: Response)
    ensures
        r.deep_view() == SpecResponse::MyRights(
            SpecMyRights { mailbox: mailbox@, rights: rights.deep_view() },
        ),
{
    Response::MyRights(MyRights { mailbox, rights })
}

/// my_rights_response ::= "MYRIGHTS" SP mailbox SP rights
pub open spec fn spec_my_rights(s: Seq<u8>, i: int) -> SRes<SpecResponse> {
    match spec_kw(s, i, Kw::MyRightsKw, true) {
        Err(x) => Err(x),
        Ok(a) => match spec_space1_c(s, a) {
            Err(x) => Err(x),
            Ok(b) => match spec_mailbox(s, b) {
                Err(x) => Err(x),
                Ok((c, mailbox)) => match spec_sp_rights(s, c) {
                    Err(x) => Err(x),
                    Ok((e, rights)) => Ok(
                        (e, SpecResponse::MyRights(SpecMyRights { mailbox, rights })),
                    ),
                },
            },
        },
    }
}

pub fn p_my_rights(s: &[u8], i: usize) -> (r: PRes<Response>)
    requires
        i <= s@.len(),
    ensures
        dv(r) == spec_my_rights(s@, i as int),
        wf(r, s@, i as int),
{
    let a = match tag_kw(s, i, Kw::MyRightsKw, true) {
        Ok(a) => a,
        Err(x) => return Err(x),
    };
    let b = match space1_c(s, a) {
        Ok(b) => b,
        Err(x) => return Err(x),
    };
    let (c, mailbox) = match p_mailbox(s, b) {
        Ok(v) => v,
        Err(x) => return Err(x),
    };
    match p_sp_rights(s, c) {
        Ok((e, rights)) => Ok((e, my_rights_response(mailbox, rights))),
        Err(x) => Err(x),
    }
}

} // verus!
