//! Body sections of FETCH responses (RFC 3501 section 6.4.5 and the `section` syntax).

use vstd::prelude::*;
use crate::parser::base::{
    dv, kw_val, opt_kw, s_kw_val, s_or, spec_kw, spec_opt_kw, tag_kw, wf, Kw, PRes, ParseError, SRes,
};
use crate::parser::combinators::{
    many0, opt_byte, parenthesized_list, spec_many0, spec_opt_byte, spec_parenthesized_list, SpecParser,
};
use crate::parser::tokens::{
    p_astring, p_nstring, p_number, spec_astring, spec_nstring, spec_number,
};
use crate::types::{AttributeValue, MessageSection, SectionPath};
use crate::types::model::{SpecAttributeValue, SpecSectionPath, Bytes};

verus! {

/// "." number
pub open spec fn spec_dot_number(s: Seq<u8>, i: int) -> SRes<u32> {
    match spec_kw(s, i, Kw::Dot, false) {
        Err(x) => Err(x),
        Ok(a) => spec_number(s, a),
    }
}

fn p_dot_number(s: &[u8], i: usize) -> (r: PRes<u32>)
    requires
        i <= s@.len(),
    ensures
        dv(r) == spec_dot_number(s@, i as int),
        wf(r, s@, i as int),
{
    match tag_kw(s, i, Kw::Dot, false) {
        Err(x) => Err(x),
        Ok(a) => p_number(s, a),
    }
}

pub open spec fn g_dot_number() -> SpecParser<u32> {
    |s: Seq<u8>, i: int| spec_dot_number(s, i)
}

/// section-part = nz-number *("." nz-number)
pub open spec fn spec_section_part(s: Seq<u8>, i: int) -> SRes<Seq<u32>> {
    match spec_number(s, i) {
        Err(x) => Err(x),
        Ok((a, p)) => match spec_many0(s, a, g_dot_number()) {
            Err(x) => Err(x),
            Ok((e, rest)) => Ok((e, seq![p] + rest)),
        },
    }
}

pub fn p_section_part(s: &[u8], i: usize) -> (r: PRes<Vec<u32>>)
    requires
        i <= s@.len(),
    ensures
        dv(r) == spec_section_part(s@, i as int),
        wf(r, s@, i as int),
{
    let (a, p) = match p_number(s, i) {
        Ok(v) => v,
        Err(x) => return Err(x),
    };
    let f = |t: &[u8], j: usize| -> (q: PRes<u32>)
        requires
            j <= t@.len(),
        ensures
            dv(q) == spec_dot_number(t@, j as int),
            wf(q, t@, j as int),
        { p_dot_number(t, j) };
    let (e, rest) = match many0(s, a, f, Ghost(g_dot_number())) {
        Ok(v) => v,
        Err(x) => return Err(x),
    };
    let mut v: Vec<u32> = Vec::new();
    v.push(p);
    let mut rest = rest;
    let ghost r0 = rest.deep_view();
    v.append(&mut rest);
    proof {
        assert(v.deep_view() =~= seq![p] + r0);
    }
    Ok((e, v))
}

pub open spec fn g_astring() -> SpecParser<Bytes> {
    |s: Seq<u8>, i: int| spec_astring(s, i)
}

/// section-msgtext = "HEADER" / "HEADER.FIELDS" [".NOT"] SP header-list / "TEXT"
pub open spec fn spec_section_msgtext(s: Seq<u8>, i: int) -> SRes<MessageSection> {
    s_or(
        match spec_kw(s, i, Kw::HeaderFields, true) {
            Err(x) => Err(x),
            Ok(a) => match spec_opt_kw(s, a, Kw::DotNot, true) {
                Err(x) => Err(x),
                Ok(b) => match spec_kw(s, b, Kw::Sp, false) {
                    Err(x) => Err(x),
                    Ok(c) => match spec_parenthesized_list(s, c, g_astring()) {
                        Err(x) => Err(x),
                        Ok((e, _)) => Ok((e, MessageSection::Header)),
                    },
                },
            },
        },
        s_or(
            s_kw_val(s, i, Kw::Header, true, MessageSection::Header),
            s_kw_val(s, i, Kw::Text, true, MessageSection::Text),
        ),
    )
}

pub fn p_section_msgtext(s: &[u8], i: usize) -> (r: PRes<MessageSection>)
    requires
        i <= s@.len(),
    ensures
        dv(r) == spec_section_msgtext(s@, i as int),
        wf(r, s@, i as int),
{
    let fields = match tag_kw(s, i, Kw::HeaderFields, true) {
        Err(x) => Err(x),
        Ok(a) => {
            match opt_kw(s, a, Kw::DotNot, true) {
                Err(x) => Err(x),
                Ok(b) => match tag_kw(s, b, Kw::Sp, false) {
                    Err(x) => Err(x),
                    Ok(c) => {
                        let f = |t: &[u8], j: usize| -> (q: PRes<Vec<u8>>)
                            requires
                                j <= t@.len(),
                            ensures
                                dv(q) == spec_astring(t@, j as int),
                                wf(q, t@, j as int),
                            { p_astring(t, j) };
                        match parenthesized_list(s, c, f, Ghost(g_astring())) {
                            Err(x) => Err(x),
                            Ok((e, _)) => Ok((e, MessageSection::Header)),
                        }
                    },
                },
            }
        },
    };
    match fields {
        Err(ParseError::Error) => {},
        r => return r,
    }
    match kw_val(s, i, Kw::Header, true, MessageSection::Header) {
        Err(ParseError::Error) => {},
        r => return r,
    }
    kw_val(s, i, Kw::Text, true, MessageSection::Text)
}

/// section-text = section-msgtext / "MIME"
pub open spec fn spec_section_text(s: Seq<u8>, i: int) -> SRes<MessageSection> {
    s_or(spec_section_msgtext(s, i), s_kw_val(s, i, Kw::Mime, true, MessageSection::Mime))
}

pub fn p_section_text(s: &[u8], i: usize) -> (r: PRes<MessageSection>)
    requires
        i <= s@.len(),
    ensures
        dv(r) == spec_section_text(s@, i as int),
        wf(r, s@, i as int),
{
    match p_section_msgtext(s, i) {
        Err(ParseError::Error) => kw_val(s, i, Kw::Mime, true, MessageSection::Mime),
        r => r,
    }
}

/// section-spec = section-msgtext / (section-part ["." section-text])
pub open spec fn spec_section_spec(s: Seq<u8>, i: int) -> SRes<SpecSectionPath> {
    s_or(
        match spec_section_msgtext(s, i) {
            Ok((e, m)) => Ok((e, SpecSectionPath::Full(m))),
            Err(x) => Err(x),
        },
        match spec_section_part(s, i) {
            Err(x) => Err(x),
            Ok((a, p)) => match spec_kw(s, a, Kw::Dot, false) {
                Ok(b) => match spec_section_text(s, b) {
                    Ok((e, t)) => Ok((e, SpecSectionPath::Part(p, Some(t)))),
                    Err(ParseError::Error) => Ok((a, SpecSectionPath::Part(p, None))),
                    Err(x) => Err(x),
                },
                Err(ParseError::Error) => Ok((a, SpecSectionPath::Part(p, None))),
                Err(x) => Err(x),
            },
        },
    )
}

pub fn p_section_spec(s: &[u8], i: usize) -> (r: PRes<SectionPath>)
    requires
        i <= s@.len(),
    ensures
        dv(r) == spec_section_spec(s@, i as int),
        wf(r, s@, i as int),
{
    match p_section_msgtext(s, i) {
        Err(ParseError::Error) => {},
        Ok((e, m)) => return Ok((e, SectionPath::Full(m))),
        Err(x) => return Err(x),
    }
    let (a, p) = match p_section_part(s, i) {
        Ok(v) => v,
        Err(x) => return Err(x),
    };
    match tag_kw(s, a, Kw::Dot, false) {
        Ok(b) => match p_section_text(s, b) {
            Ok((e, t)) => Ok((e, SectionPath::Part(p, Some(t)))),
            Err(ParseError::Error) => Ok((a, SectionPath::Part(p, None))),
            Err(x) => Err(x),
        },
        Err(ParseError::Error) => Ok((a, SectionPath::Part(p, None))),
        Err(x) => Err(x),
    }
}

/// section = "[" [section-spec] "]"
pub open spec fn spec_section(s: Seq<u8>, i: int) -> SRes<Option<SpecSectionPath>> {
    match spec_kw(s, i, Kw::LBracket, false) {
        Err(x) => Err(x),
        Ok(a) => {
            let inner = match spec_section_spec(s, a) {
                Ok((b, p)) => Ok((b, Some(p))),
                Err(ParseError::Error) => Ok((a, None)),
                Err(x) => Err(x),
            };
            match inner {
                Err(x) => Err(x),
                Ok((b, p)) => match spec_kw(s, b, Kw::RBracket, false) {
                    Err(x) => Err(x),
                    Ok(e) => Ok((e, p)),
                },
            }
        },
    }
}

pub fn p_section(s: &[u8], i: usize) -> (r: PRes<Option<SectionPath>>)
    requires
        i <= s@.len(),
    ensures
        dv(r) == spec_section(s@, i as int),
        wf(r, s@, i as int),
{
    let a = match tag_kw(s, i, Kw::LBracket, false) {
        Ok(a) => a,
        Err(x) => return Err(x),
    };
    let (b, p) = match p_section_spec(s, a) {
        Ok((b, p)) => (b, Some(p)),
        Err(ParseError::Error) => (a, None),
        Err(x) => return Err(x),
    };
    match tag_kw(s, b, Kw::RBracket, false) {
        Err(x) => Err(x),
        Ok(e) => Ok((e, p)),
    }
}

/// "BODY" section ["<" number ">"] SP nstring
pub open spec fn spec_msg_att_body_section(s: Seq<u8>, i: int) -> SRes<SpecAttributeValue> {
    match spec_kw(s, i, Kw::Body, true) {
        Err(x) => Err(x),
        Ok(a) => match spec_section(s, a) {
            Err(x) => Err(x),
            Ok((b, section)) => {
                let index = match spec_kw(s, b, Kw::Lt, false) {
                    Ok(c) => match spec_number(s, c) {
                        Ok((d, n)) => match spec_kw(s, d, Kw::Gt, false) {
                            Ok(e) => Ok((e, Some(n))),
                            Err(ParseError::Error) => Ok((b, None)),
                            Err(x) => Err(x),
                        },
                        Err(ParseError::Error) => Ok((b, None)),
                        Err(x) => Err(x),
                    },
                    Err(ParseError::Error) => Ok((b, None)),
                    Err(x) => Err(x),
                };
                match index {
                    Err(x) => Err(x),
                    Ok((c, index)) => match spec_kw(s, c, Kw::Sp, false) {
                        Err(x) => Err(x),
                        Ok(d) => match spec_nstring(s, d) {
                            Err(x) => Err(x),
                            Ok((e, data)) => Ok(
                                (e, SpecAttributeValue::BodySection { section, index, data }),
                            ),
                        },
                    },
                }
            },
        },
    }
}

pub fn p_msg_att_body_section(s: &[u8], i: usize) -> (r: PRes<AttributeValue>)
    requires
        i <= s@.len(),
    ensures
        dv(r) == spec_msg_att_body_section(s@, i as int),
        wf(r, s@, i as int),
{
    let a = match tag_kw(s, i, Kw::Body, true) {
        Ok(a) => a,
        Err(x) => return Err(x),
    };
    let (b, section) = match p_section(s, a) {
        Ok(v) => v,
        Err(x) => return Err(x),
    };
    let index = match tag_kw(s, b, Kw::Lt, false) {
        Ok(c) => match p_number(s, c) {
            Ok((d, n)) => match tag_kw(s, d, Kw::Gt, false) {
                Ok(e) => Ok((e, Some(n))),
                Err(ParseError::Error) => Ok((b, None)),
                Err(x) => Err(x),
            },
            Err(ParseError::Error) => Ok((b, None)),
            Err(x) => Err(x),
        },
        Err(ParseError::Error) => Ok((b, None)),
        Err(x) => Err(x),
    };
    let (c, index) = match index {
        Ok(v) => v,
        Err(x) => return Err(x),
    };
    let d = match tag_kw(s, c, Kw::Sp, false) {
        Ok(d) => d,
        Err(x) => return Err(x),
    };
    match p_nstring(s, d) {
        Err(x) => Err(x),
        Ok((e, data)) => Ok((e, AttributeValue::BodySection { section, index, data })),
    }
}


// ----- the public parsers, at the start of an input -----

/// The section part at the start of `i`: its numbers.
pub fn section_part(i: &[u8]) -> (r: crate::parser::base::IResult<'_, Vec<u32>>)
    ensures
        crate::parser::base::iresult_is(i@, r, spec_section_part(i@, 0)),
{
    crate::parser::base::finish(i, p_section_part(i, 0))
}

/// The section message text at the start of `i`.
pub fn section_msgtext(i: &[u8]) -> (r: crate::parser::base::IResult<'_, MessageSection>)
    ensures
        crate::parser::base::iresult_is(i@, r, spec_section_msgtext(i@, 0)),
{
    crate::parser::base::finish(i, p_section_msgtext(i, 0))
}

/// The section text at the start of `i`.
pub fn section_text(i: &[u8]) -> (r: crate::parser::base::IResult<'_, MessageSection>)
    ensures
        crate::parser::base::iresult_is(i@, r, spec_section_text(i@, 0)),
{
    crate::parser::base::finish(i, p_section_text(i, 0))
}

/// The section spec at the start of `i`.
pub fn section_spec(i: &[u8]) -> (r: crate::parser::base::IResult<'_, SectionPath>)
    ensures
        crate::parser::base::iresult_is(i@, r, spec_section_spec(i@, 0)),
{
    crate::parser::base::finish(i, p_section_spec(i, 0))
}

/// The bracketed section at the start of `i`.
pub fn section(i: &[u8]) -> (r: crate::parser::base::IResult<'_, Option<SectionPath>>)
    ensures
        crate::parser::base::iresult_is(i@, r, spec_section(i@, 0)),
{
    crate::parser::base::finish(i, p_section(i, 0))
}

/// The BODY[..] attribute at the start of `i`.
pub fn msg_att_body_section(i: &[u8]) -> (r: crate::parser::base::IResult<'_, AttributeValue>)
    ensures
        crate::parser::base::iresult_is(i@, r, spec_msg_att_body_section(i@, 0)),
{
    crate::parser::base::finish(i, p_msg_att_body_section(i, 0))
}

} // verus!
