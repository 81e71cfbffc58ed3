//! BODYSTRUCTURE (RFC 3501 section 7.4.2): the MIME structure of a message.

use vstd::prelude::*;
use crate::round_trip::ascii_bytes;
use crate::parser::base::{
    byte_match, kw_bytes, lemma_kw_reads_matching, lemma_kw_refuses, byte, dv, kw_val, s_kw_val, s_or, spec_byte, spec_kw, tag_kw, wf, Kw, PRes, ParseError, SRes,
};
use crate::parser::combinators::{
    paren_delimited, parenthesized_nonempty_list, prepend, spec_opt_opt, spec_paren_delimited, spec_parenthesized_nonempty_list,
    SpecParser,
};
use crate::parser::envelope::{p_envelope, spec_envelope};
use crate::types::Envelope;
use crate::types::model::SpecEnvelope;
use crate::parser::tokens::{
    p_nil, p_nstring_utf8, p_number, p_string_utf8, spec_nil, spec_nstring_utf8, spec_number,
    spec_string_utf8,
};
use crate::types::{
    AttributeValue, BodyContentCommon, BodyContentSinglePart, BodyExt1Part, BodyExtMPart,
    BodyExtension, BodyFields, BodyStructure, ContentDisposition, ContentEncoding, ContentType,
};
use crate::types::model::{
    SpecAttributeValue, SpecBodyContentCommon, SpecBodyContentSinglePart, SpecBodyExtension,
    SpecBodyParams, SpecBodyStructure, SpecContentDisposition, SpecContentEncoding,
    SpecContentType, Text,
};

verus! {

/// The fields of a single-part body, as the grammar reads them.
pub struct SpecBodyFields {
    pub param: SpecBodyParams,
    pub id: Option<Text>,
    pub description: Option<Text>,
    pub transfer_encoding: SpecContentEncoding,
    pub octets: u32,
}

impl DeepView for BodyFields {
    type V = SpecBodyFields;

    open spec fn deep_view(&self) -> SpecBodyFields {
        SpecBodyFields {
            param: self.param.deep_view(),
            id: self.id.deep_view(),
            description: self.description.deep_view(),
            transfer_encoding: self.transfer_encoding.deep_view(),
            octets: self.octets,
        }
    }
}

pub type SpecExtRest = (
    Option<SpecContentDisposition>,
    Option<Seq<Text>>,
    Option<Text>,
    Option<SpecBodyExtension>,
);

/// The extension data of a single-part body, as the grammar reads it: md5, then the rest.
impl DeepView for BodyExt1Part {
    type V = (Option<Text>, SpecExtRest);

    open spec fn deep_view(&self) -> (Option<Text>, SpecExtRest) {
        (
            self.md5.deep_view(),
            (
                self.disposition.deep_view(),
                self.language.deep_view(),
                self.location.deep_view(),
                self.extension.deep_view(),
            ),
        )
    }
}

/// The extension data of a multipart body, as the grammar reads it: parameters, then the rest.
impl DeepView for BodyExtMPart {
    type V = (SpecBodyParams, SpecExtRest);

    open spec fn deep_view(&self) -> (SpecBodyParams, SpecExtRest) {
        (
            self.param.deep_view(),
            (
                self.disposition.deep_view(),
                self.language.deep_view(),
                self.location.deep_view(),
                self.extension.deep_view(),
            ),
        )
    }
}

// ----- parameters, encoding, language, disposition -----

/// string SP string
pub open spec fn spec_param_pair(s: Seq<u8>, i: int) -> SRes<(Text, Text)> {
    match spec_string_utf8(s, i) {
        Err(x) => Err(x),
        Ok((a, k)) => match spec_kw(s, a, Kw::Sp, false) {
            Err(x) => Err(x),
            Ok(b) => match spec_string_utf8(s, b) {
                Err(x) => Err(x),
                Ok((e, v)) => Ok((e, (k, v))),
            },
        },
    }
}

fn p_param_pair(s: &[u8], i: usize) -> (r: PRes<(String, String)>)
    requires
        i <= s@.len(),
    ensures
        dv(r) == spec_param_pair(s@, i as int),
        wf(r, s@, i as int),
{
    let (a, k) = match p_string_utf8(s, i) {
        Ok(v) => v,
        Err(x) => return Err(x),
    };
    let b = match tag_kw(s, a, Kw::Sp, false) {
        Ok(b) => b,
        Err(x) => return Err(x),
    };
    match p_string_utf8(s, b) {
        Err(x) => Err(x),
        Ok((e, v)) => Ok((e, (k, v))),
    }
}

pub open spec fn g_param_pair() -> SpecParser<(Text, Text)> {
    |s: Seq<u8>, i: int| spec_param_pair(s, i)
}

/// body-fld-param = "(" string SP string *(SP string SP string) ")" / nil
pub open spec fn spec_body_param(s: Seq<u8>, i: int) -> SRes<SpecBodyParams> {
    match spec_nil(s, i) {
        Ok(e) => Ok((e, None)),
        Err(ParseError::Error) => match spec_parenthesized_nonempty_list(s, i, g_param_pair()) {
            Ok((e, v)) => Ok((e, Some(v))),
            Err(x) => Err(x),
        },
        Err(x) => Err(x),
    }
}

pub fn p_body_param(s: &[u8], i: usize) -> (r: PRes<Option<Vec<(String, String)>>>)
    requires
        i <= s@.len(),
    ensures
        dv(r) == spec_body_param(s@, i as int),
        wf(r, s@, i as int),
{
    match p_nil(s, i) {
        Ok(e) => Ok((e, None)),
        Err(ParseError::Error) => {
            let f = |t: &[u8], j: usize| -> (q: PRes<(String, String)>)
                requires
                    j <= t@.len(),
                ensures
                    dv(q) == spec_param_pair(t@, j as int),
                    wf(q, t@, j as int),
                { p_param_pair(t, j) };
            match parenthesized_nonempty_list(s, i, f, Ghost(g_param_pair())) {
                Ok((e, v)) => Ok((e, Some(v))),
                Err(x) => Err(x),
            }
        },
        Err(x) => Err(x),
    }
}

/// The quoted encodings that have a name of their own.
pub open spec fn spec_encoding_name(s: Seq<u8>, i: int) -> SRes<SpecContentEncoding> {
    s_or(s_kw_val(s, i, Kw::SevenBit, true, SpecContentEncoding::SevenBit),
    s_or(s_kw_val(s, i, Kw::EightBit, true, SpecContentEncoding::EightBit),
    s_or(s_kw_val(s, i, Kw::Binary, true, SpecContentEncoding::Binary),
    s_or(s_kw_val(s, i, Kw::Base64, true, SpecContentEncoding::Base64),
    s_kw_val(s, i, Kw::QuotedPrintable, true, SpecContentEncoding::QuotedPrintable)))))
}

fn p_encoding_name(s: &[u8], i: usize) -> (r: PRes<ContentEncoding>)
    requires
        i <= s@.len(),
    ensures
        dv(r) == spec_encoding_name(s@, i as int),
        wf(r, s@, i as int),
{
    match kw_val(s, i, Kw::SevenBit, true, ContentEncoding::SevenBit) {
        Err(ParseError::Error) => {},
        r => return r,
    }
    match kw_val(s, i, Kw::EightBit, true, ContentEncoding::EightBit) {
        Err(ParseError::Error) => {},
        r => return r,
    }
    match kw_val(s, i, Kw::Binary, true, ContentEncoding::Binary) {
        Err(ParseError::Error) => {},
        r => return r,
    }
    match kw_val(s, i, Kw::Base64, true, ContentEncoding::Base64) {
        Err(ParseError::Error) => {},
        r => return r,
    }
    kw_val(s, i, Kw::QuotedPrintable, true, ContentEncoding::QuotedPrintable)
}

/// body-fld-enc: a known encoding in double quotes, or any other string.
pub open spec fn spec_body_encoding(s: Seq<u8>, i: int) -> SRes<SpecContentEncoding> {
    s_or(
        match spec_byte(s, i, 0x22) {
            Err(x) => Err(x),
            Ok(a) => match spec_encoding_name(s, a) {
                Err(x) => Err(x),
                Ok((b, v)) => match spec_byte(s, b, 0x22) {
                    Err(x) => Err(x),
                    Ok(e) => Ok((e, v)),
                },
            },
        },
        match spec_string_utf8(s, i) {
            Ok((e, t)) => Ok((e, SpecContentEncoding::Other(t))),
            Err(x) => Err(x),
        },
    )
}

proof fn lemma_quoted_encoding(s: Seq<u8>, e: int, v: SpecContentEncoding)
    requires
        1 <= e < s.len(),
        s[0] == 0x22u8,
        s[e] == 0x22u8,
        spec_encoding_name(s, 1) == Ok::<(int, SpecContentEncoding), ParseError>((e, v)),
    ensures
        spec_body_encoding(s, 0) == Ok::<(int, SpecContentEncoding), ParseError>((e + 1, v)),
{
}

proof fn lemma_encoding_seven_bit_upper(rest: Seq<u8>)
    ensures
        spec_body_encoding(ascii_bytes("\"7BIT\""@) + rest, 0)
            == Ok::<(int, SpecContentEncoding), ParseError>((ascii_bytes("\"7BIT\""@).len() as int, SpecContentEncoding::SevenBit)),
{
    let tb = ascii_bytes("\"7BIT\""@);
    let s = tb + rest;
    reveal_strlit("\"7BIT\"");
    let n = kw_bytes(Kw::SevenBit).len() as int;
    assert(tb.len() == n + 2);
    assert forall|j: int| 0 <= j < n implies byte_match(#[trigger] s[1 + j], kw_bytes(Kw::SevenBit)[j], true) by {
        assert(s[1 + j] == tb[1 + j]);
    }
    lemma_kw_reads_matching(s, 1, Kw::SevenBit, true);
    assert(s[0] == tb[0]);
    assert(s[n + 1] == tb[n + 1]);
    lemma_quoted_encoding(s, n + 1, SpecContentEncoding::SevenBit);
}

proof fn lemma_encoding_seven_bit_lower(rest: Seq<u8>)
    ensures
        spec_body_encoding(ascii_bytes("\"7bit\""@) + rest, 0)
            == Ok::<(int, SpecContentEncoding), ParseError>((ascii_bytes("\"7bit\""@).len() as int, SpecContentEncoding::SevenBit)),
{
    let tb = ascii_bytes("\"7bit\""@);
    let s = tb + rest;
    reveal_strlit("\"7bit\"");
    let n = kw_bytes(Kw::SevenBit).len() as int;
    assert(tb.len() == n + 2);
    assert forall|j: int| 0 <= j < n implies byte_match(#[trigger] s[1 + j], kw_bytes(Kw::SevenBit)[j], true) by {
        assert(s[1 + j] == tb[1 + j]);
    }
    lemma_kw_reads_matching(s, 1, Kw::SevenBit, true);
    assert(s[0] == tb[0]);
    assert(s[n + 1] == tb[n + 1]);
    lemma_quoted_encoding(s, n + 1, SpecContentEncoding::SevenBit);
}

proof fn lemma_encoding_eight_bit_upper(rest: Seq<u8>)
    ensures
        spec_body_encoding(ascii_bytes("\"8BIT\""@) + rest, 0)
            == Ok::<(int, SpecContentEncoding), ParseError>((ascii_bytes("\"8BIT\""@).len() as int, SpecContentEncoding::EightBit)),
{
    let tb = ascii_bytes("\"8BIT\""@);
    let s = tb + rest;
    reveal_strlit("\"8BIT\"");
    let n = kw_bytes(Kw::EightBit).len() as int;
    assert(tb.len() == n + 2);
    assert forall|j: int| 0 <= j < n implies byte_match(#[trigger] s[1 + j], kw_bytes(Kw::EightBit)[j], true) by {
        assert(s[1 + j] == tb[1 + j]);
    }
    assert(s[1] == tb[1]);
    lemma_kw_refuses(s, 1, Kw::SevenBit, true, 0);
    lemma_kw_reads_matching(s, 1, Kw::EightBit, true);
    assert(s[0] == tb[0]);
    assert(s[n + 1] == tb[n + 1]);
    lemma_quoted_encoding(s, n + 1, SpecContentEncoding::EightBit);
}

proof fn lemma_encoding_eight_bit_lower(rest: Seq<u8>)
    ensures
        spec_body_encoding(ascii_bytes("\"8bit\""@) + rest, 0)
            == Ok::<(int, SpecContentEncoding), ParseError>((ascii_bytes("\"8bit\""@).len() as int, SpecContentEncoding::EightBit)),
{
    let tb = ascii_bytes("\"8bit\""@);
    let s = tb + rest;
    reveal_strlit("\"8bit\"");
    let n = kw_bytes(Kw::EightBit).len() as int;
    assert(tb.len() == n + 2);
    assert forall|j: int| 0 <= j < n implies byte_match(#[trigger] s[1 + j], kw_bytes(Kw::EightBit)[j], true) by {
        assert(s[1 + j] == tb[1 + j]);
    }
    assert(s[1] == tb[1]);
    lemma_kw_refuses(s, 1, Kw::SevenBit, true, 0);
    lemma_kw_reads_matching(s, 1, Kw::EightBit, true);
    assert(s[0] == tb[0]);
    assert(s[n + 1] == tb[n + 1]);
    lemma_quoted_encoding(s, n + 1, SpecContentEncoding::EightBit);
}

proof fn lemma_encoding_binary_upper(rest: Seq<u8>)
    ensures
        spec_body_encoding(ascii_bytes("\"BINARY\""@) + rest, 0)
            == Ok::<(int, SpecContentEncoding), ParseError>((ascii_bytes("\"BINARY\""@).len() as int, SpecContentEncoding::Binary)),
{
    let tb = ascii_bytes("\"BINARY\""@);
    let s = tb + rest;
    reveal_strlit("\"BINARY\"");
    let n = kw_bytes(Kw::Binary).len() as int;
    assert(tb.len() == n + 2);
    assert forall|j: int| 0 <= j < n implies byte_match(#[trigger] s[1 + j], kw_bytes(Kw::Binary)[j], true) by {
        assert(s[1 + j] == tb[1 + j]);
    }
    assert(s[1] == tb[1]);
    lemma_kw_refuses(s, 1, Kw::SevenBit, true, 0);
    assert(s[1] == tb[1]);
    lemma_kw_refuses(s, 1, Kw::EightBit, true, 0);
    lemma_kw_reads_matching(s, 1, Kw::Binary, true);
    assert(s[0] == tb[0]);
    assert(s[n + 1] == tb[n + 1]);
    lemma_quoted_encoding(s, n + 1, SpecContentEncoding::Binary);
}

proof fn lemma_encoding_binary_lower(rest: Seq<u8>)
    ensures
        spec_body_encoding(ascii_bytes("\"binary\""@) + rest, 0)
            == Ok::<(int, SpecContentEncoding), ParseError>((ascii_bytes("\"binary\""@).len() as int, SpecContentEncoding::Binary)),
{
    let tb = ascii_bytes("\"binary\""@);
    let s = tb + rest;
    reveal_strlit("\"binary\"");
    let n = kw_bytes(Kw::Binary).len() as int;
    assert(tb.len() == n + 2);
    assert forall|j: int| 0 <= j < n implies byte_match(#[trigger] s[1 + j], kw_bytes(Kw::Binary)[j], true) by {
        assert(s[1 + j] == tb[1 + j]);
    }
    assert(s[1] == tb[1]);
    lemma_kw_refuses(s, 1, Kw::SevenBit, true, 0);
    assert(s[1] == tb[1]);
    lemma_kw_refuses(s, 1, Kw::EightBit, true, 0);
    lemma_kw_reads_matching(s, 1, Kw::Binary, true);
    assert(s[0] == tb[0]);
    assert(s[n + 1] == tb[n + 1]);
    lemma_quoted_encoding(s, n + 1, SpecContentEncoding::Binary);
}

proof fn lemma_encoding_base64_upper(rest: Seq<u8>)
    ensures
        spec_body_encoding(ascii_bytes("\"BASE64\""@) + rest, 0)
            == Ok::<(int, SpecContentEncoding), ParseError>((ascii_bytes("\"BASE64\""@).len() as int, SpecContentEncoding::Base64)),
{
    let tb = ascii_bytes("\"BASE64\""@);
    let s = tb + rest;
    reveal_strlit("\"BASE64\"");
    let n = kw_bytes(Kw::Base64).len() as int;
    assert(tb.len() == n + 2);
    assert forall|j: int| 0 <= j < n implies byte_match(#[trigger] s[1 + j], kw_bytes(Kw::Base64)[j], true) by {
        assert(s[1 + j] == tb[1 + j]);
    }
    assert(s[1] == tb[1]);
    lemma_kw_refuses(s, 1, Kw::SevenBit, true, 0);
    assert(s[1] == tb[1]);
    lemma_kw_refuses(s, 1, Kw::EightBit, true, 0);
    assert(s[2] == tb[2]);
    lemma_kw_refuses(s, 1, Kw::Binary, true, 1);
    lemma_kw_reads_matching(s, 1, Kw::Base64, true);
    assert(s[0] == tb[0]);
    assert(s[n + 1] == tb[n + 1]);
    lemma_quoted_encoding(s, n + 1, SpecContentEncoding::Base64);
}

proof fn lemma_encoding_base64_lower(rest: Seq<u8>)
    ensures
        spec_body_encoding(ascii_bytes("\"base64\""@) + rest, 0)
            == Ok::<(int, SpecContentEncoding), ParseError>((ascii_bytes("\"base64\""@).len() as int, SpecContentEncoding::Base64)),
{
    let tb = ascii_bytes("\"base64\""@);
    let s = tb + rest;
    reveal_strlit("\"base64\"");
    let n = kw_bytes(Kw::Base64).len() as int;
    assert(tb.len() == n + 2);
    assert forall|j: int| 0 <= j < n implies byte_match(#[trigger] s[1 + j], kw_bytes(Kw::Base64)[j], true) by {
        assert(s[1 + j] == tb[1 + j]);
    }
    assert(s[1] == tb[1]);
    lemma_kw_refuses(s, 1, Kw::SevenBit, true, 0);
    assert(s[1] == tb[1]);
    lemma_kw_refuses(s, 1, Kw::EightBit, true, 0);
    assert(s[2] == tb[2]);
    lemma_kw_refuses(s, 1, Kw::Binary, true, 1);
    lemma_kw_reads_matching(s, 1, Kw::Base64, true);
    assert(s[0] == tb[0]);
    assert(s[n + 1] == tb[n + 1]);
    lemma_quoted_encoding(s, n + 1, SpecContentEncoding::Base64);
}

proof fn lemma_encoding_quoted_printable_upper(rest: Seq<u8>)
    ensures
        spec_body_encoding(ascii_bytes("\"QUOTED-PRINTABLE\""@) + rest, 0)
            == Ok::<(int, SpecContentEncoding), ParseError>((ascii_bytes("\"QUOTED-PRINTABLE\""@).len() as int, SpecContentEncoding::QuotedPrintable)),
{
    let tb = ascii_bytes("\"QUOTED-PRINTABLE\""@);
    let s = tb + rest;
    reveal_strlit("\"QUOTED-PRINTABLE\"");
    let n = kw_bytes(Kw::QuotedPrintable).len() as int;
    assert(tb.len() == n + 2);
    assert forall|j: int| 0 <= j < n implies byte_match(#[trigger] s[1 + j], kw_bytes(Kw::QuotedPrintable)[j], true) by {
        assert(s[1 + j] == tb[1 + j]);
    }
    assert(s[1] == tb[1]);
    lemma_kw_refuses(s, 1, Kw::SevenBit, true, 0);
    assert(s[1] == tb[1]);
    lemma_kw_refuses(s, 1, Kw::EightBit, true, 0);
    assert(s[1] == tb[1]);
    lemma_kw_refuses(s, 1, Kw::Binary, true, 0);
    assert(s[1] == tb[1]);
    lemma_kw_refuses(s, 1, Kw::Base64, true, 0);
    lemma_kw_reads_matching(s, 1, Kw::QuotedPrintable, true);
    assert(s[0] == tb[0]);
    assert(s[n + 1] == tb[n + 1]);
    lemma_quoted_encoding(s, n + 1, SpecContentEncoding::QuotedPrintable);
}

proof fn lemma_encoding_quoted_printable_lower(rest: Seq<u8>)
    ensures
        spec_body_encoding(ascii_bytes("\"quoted-printable\""@) + rest, 0)
            == Ok::<(int, SpecContentEncoding), ParseError>((ascii_bytes("\"quoted-printable\""@).len() as int, SpecContentEncoding::QuotedPrintable)),
{
    let tb = ascii_bytes("\"quoted-printable\""@);
    let s = tb + rest;
    reveal_strlit("\"quoted-printable\"");
    let n = kw_bytes(Kw::QuotedPrintable).len() as int;
    assert(tb.len() == n + 2);
    assert forall|j: int| 0 <= j < n implies byte_match(#[trigger] s[1 + j], kw_bytes(Kw::QuotedPrintable)[j], true) by {
        assert(s[1 + j] == tb[1 + j]);
    }
    assert(s[1] == tb[1]);
    lemma_kw_refuses(s, 1, Kw::SevenBit, true, 0);
    assert(s[1] == tb[1]);
    lemma_kw_refuses(s, 1, Kw::EightBit, true, 0);
    assert(s[1] == tb[1]);
    lemma_kw_refuses(s, 1, Kw::Binary, true, 0);
    assert(s[1] == tb[1]);
    lemma_kw_refuses(s, 1, Kw::Base64, true, 0);
    lemma_kw_reads_matching(s, 1, Kw::QuotedPrintable, true);
    assert(s[0] == tb[0]);
    assert(s[n + 1] == tb[n + 1]);
    lemma_quoted_encoding(s, n + 1, SpecContentEncoding::QuotedPrintable);
}

/// A body's transfer encoding is named by its quoted name, in any case: "7BIT",
/// "8BIT", "BINARY", "BASE64" and "QUOTED-PRINTABLE" are read as their own encodings,
/// whatever follows.
pub proof fn lemma_body_encoding_names(rest: Seq<u8>)
    ensures
        spec_body_encoding(ascii_bytes("\"7BIT\""@) + rest, 0)
            == Ok::<(int, SpecContentEncoding), ParseError>((ascii_bytes("\"7BIT\""@).len() as int, SpecContentEncoding::SevenBit)),
        spec_body_encoding(ascii_bytes("\"7bit\""@) + rest, 0)
            == Ok::<(int, SpecContentEncoding), ParseError>((ascii_bytes("\"7bit\""@).len() as int, SpecContentEncoding::SevenBit)),
        spec_body_encoding(ascii_bytes("\"8BIT\""@) + rest, 0)
            == Ok::<(int, SpecContentEncoding), ParseError>((ascii_bytes("\"8BIT\""@).len() as int, SpecContentEncoding::EightBit)),
        spec_body_encoding(ascii_bytes("\"8bit\""@) + rest, 0)
            == Ok::<(int, SpecContentEncoding), ParseError>((ascii_bytes("\"8bit\""@).len() as int, SpecContentEncoding::EightBit)),
        spec_body_encoding(ascii_bytes("\"BINARY\""@) + rest, 0)
            == Ok::<(int, SpecContentEncoding), ParseError>((ascii_bytes("\"BINARY\""@).len() as int, SpecContentEncoding::Binary)),
        spec_body_encoding(ascii_bytes("\"binary\""@) + rest, 0)
            == Ok::<(int, SpecContentEncoding), ParseError>((ascii_bytes("\"binary\""@).len() as int, SpecContentEncoding::Binary)),
        spec_body_encoding(ascii_bytes("\"BASE64\""@) + rest, 0)
            == Ok::<(int, SpecContentEncoding), ParseError>((ascii_bytes("\"BASE64\""@).len() as int, SpecContentEncoding::Base64)),
        spec_body_encoding(ascii_bytes("\"base64\""@) + rest, 0)
            == Ok::<(int, SpecContentEncoding), ParseError>((ascii_bytes("\"base64\""@).len() as int, SpecContentEncoding::Base64)),
        spec_body_encoding(ascii_bytes("\"QUOTED-PRINTABLE\""@) + rest, 0)
            == Ok::<(int, SpecContentEncoding), ParseError>((ascii_bytes("\"QUOTED-PRINTABLE\""@).len() as int, SpecContentEncoding::QuotedPrintable)),
        spec_body_encoding(ascii_bytes("\"quoted-printable\""@) + rest, 0)
            == Ok::<(int, SpecContentEncoding), ParseError>((ascii_bytes("\"quoted-printable\""@).len() as int, SpecContentEncoding::QuotedPrintable)),
{
    lemma_encoding_seven_bit_upper(rest);
    lemma_encoding_seven_bit_lower(rest);
    lemma_encoding_eight_bit_upper(rest);
    lemma_encoding_eight_bit_lower(rest);
    lemma_encoding_binary_upper(rest);
    lemma_encoding_binary_lower(rest);
    lemma_encoding_base64_upper(rest);
    lemma_encoding_base64_lower(rest);
    lemma_encoding_quoted_printable_upper(rest);
    lemma_encoding_quoted_printable_lower(rest);
}

fn p_body_encoding(s: &[u8], i: usize) -> (r: PRes<ContentEncoding>)
    requires
        i <= s@.len(),
    ensures
        dv(r) == spec_body_encoding(s@, i as int),
        wf(r, s@, i as int),
{
    let named = match byte(s, i, 0x22) {
        Err(x) => Err(x),
        Ok(a) => match p_encoding_name(s, a) {
            Err(x) => Err(x),
            Ok((b, v)) => match byte(s, b, 0x22) {
                Err(x) => Err(x),
                Ok(e) => Ok((e, v)),
            },
        },
    };
    match named {
        Err(ParseError::Error) => {},
        r => return r,
    }
    match p_string_utf8(s, i) {
        Ok((e, t)) => Ok((e, ContentEncoding::Other(t))),
        Err(x) => Err(x),
    }
}

pub open spec fn g_string_utf8() -> SpecParser<Text> {
    |s: Seq<u8>, i: int| spec_string_utf8(s, i)
}

/// body-fld-lang = nstring / "(" string *(SP string) ")"
pub open spec fn spec_body_lang(s: Seq<u8>, i: int) -> SRes<Option<Seq<Text>>> {
    s_or(
        match spec_nstring_utf8(s, i) {
            Ok((e, v)) => Ok(
                (
                    e,
                    match v {
                        Some(t) => Some(seq![t]),
                        None => None,
                    },
                ),
            ),
            Err(x) => Err(x),
        },
        match spec_parenthesized_nonempty_list(s, i, g_string_utf8()) {
            Ok((e, v)) => Ok((e, Some(v))),
            Err(x) => Err(x),
        },
    )
}

fn p_body_lang(s: &[u8], i: usize) -> (r: PRes<Option<Vec<String>>>)
    requires
        i <= s@.len(),
    ensures
        dv(r) == spec_body_lang(s@, i as int),
        wf(r, s@, i as int),
{
    match p_nstring_utf8(s, i) {
        Ok((e, v)) => {
            return match v {
                Some(t) => {
                    let mut w: Vec<String> = Vec::new();
                    let ghost tv = t@;
                    w.push(t);
                    proof {
                        assert(w.deep_view() =~= seq![tv]);
                    }
                    Ok((e, Some(w)))
                },
                None => Ok((e, None)),
            };
        },
        Err(ParseError::Error) => {},
        Err(x) => return Err(x),
    }
    let f = |t: &[u8], j: usize| -> (q: PRes<String>)
        requires
            j <= t@.len(),
        ensures
            dv(q) == spec_string_utf8(t@, j as int),
            wf(q, t@, j as int),
        { p_string_utf8(t, j) };
    match parenthesized_nonempty_list(s, i, f, Ghost(g_string_utf8())) {
        Ok((e, v)) => Ok((e, Some(v))),
        Err(x) => Err(x),
    }
}

/// string SP body-fld-param, inside the disposition's brackets.
pub open spec fn spec_disposition_fields(s: Seq<u8>, i: int) -> SRes<Option<SpecContentDisposition>> {
    match spec_string_utf8(s, i) {
        Err(x) => Err(x),
        Ok((a, ty)) => match spec_kw(s, a, Kw::Sp, false) {
            Err(x) => Err(x),
            Ok(b) => match spec_body_param(s, b) {
                Err(x) => Err(x),
                Ok((e, params)) => Ok((e, Some(SpecContentDisposition { ty, params }))),
            },
        },
    }
}

fn p_disposition_fields(s: &[u8], i: usize) -> (r: PRes<Option<ContentDisposition>>)
    requires
        i <= s@.len(),
    ensures
        dv(r) == spec_disposition_fields(s@, i as int),
        wf(r, s@, i as int),
{
    let (a, ty) = match p_string_utf8(s, i) {
        Ok(v) => v,
        Err(x) => return Err(x),
    };
    let b = match tag_kw(s, a, Kw::Sp, false) {
        Ok(b) => b,
        Err(x) => return Err(x),
    };
    match p_body_param(s, b) {
        Err(x) => Err(x),
        Ok((e, params)) => Ok((e, Some(ContentDisposition { ty, params }))),
    }
}

pub open spec fn g_disposition_fields() -> SpecParser<Option<SpecContentDisposition>> {
    |s: Seq<u8>, i: int| spec_disposition_fields(s, i)
}

/// body-fld-dsp = "(" string SP body-fld-param ")" / nil
pub open spec fn spec_body_disposition(s: Seq<u8>, i: int) -> SRes<Option<SpecContentDisposition>> {
    match spec_nil(s, i) {
        Ok(e) => Ok((e, None)),
        Err(ParseError::Error) => spec_paren_delimited(s, i, g_disposition_fields()),
        Err(x) => Err(x),
    }
}

fn p_body_disposition(s: &[u8], i: usize) -> (r: PRes<Option<ContentDisposition>>)
    requires
        i <= s@.len(),
    ensures
        dv(r) == spec_body_disposition(s@, i as int),
        wf(r, s@, i as int),
{
    match p_nil(s, i) {
        Ok(e) => Ok((e, None)),
        Err(ParseError::Error) => {
            let f = |t: &[u8], j: usize| -> (q: PRes<Option<ContentDisposition>>)
                requires
                    j <= t@.len(),
                ensures
                    dv(q) == spec_disposition_fields(t@, j as int),
                    wf(q, t@, j as int),
                { p_disposition_fields(t, j) };
            paren_delimited(s, i, f, Ghost(g_disposition_fields()))
        },
        Err(x) => Err(x),
    }
}

// ----- body extensions -----

/// body-extension = nstring / number / "(" body-extension *(SP body-extension) ")"
pub open spec fn spec_body_extension(s: Seq<u8>, i: int) -> SRes<SpecBodyExtension>
    decreases s.len() - i, 1int,
{
    if i < 0 || i > s.len() {
        Err(ParseError::Error)
    } else {
        s_or(
            match spec_number(s, i) {
                Ok((e, n)) => Ok((e, SpecBodyExtension::Num(n))),
                Err(x) => Err(x),
            },
            s_or(
                match spec_nstring_utf8(s, i) {
                    Ok((e, v)) => Ok((e, SpecBodyExtension::Str(v))),
                    Err(x) => Err(x),
                },
                match spec_extension_list(s, i) {
                    Ok((e, v)) => Ok((e, SpecBodyExtension::List(v))),
                    Err(x) => Err(x),
                },
            ),
        )
    }
}

/// "(" body-extension *(SP body-extension) ")"
pub open spec fn spec_extension_list(s: Seq<u8>, i: int) -> SRes<Seq<SpecBodyExtension>>
    decreases s.len() - i, 0int,
{
    if i < 0 || i > s.len() {
        Err(ParseError::Error)
    } else {
        match spec_byte(s, i, 0x28) {
            Err(x) => Err(x),
            Ok(a) => if a != i + 1 {
                Err(ParseError::Error)
            } else {
                match spec_body_extension(s, a) {
                    Err(x) => Err(x),
                    Ok((b, v)) => if b < a || b > s.len() {
                        Err(ParseError::Error)
                    } else {
                        match spec_extension_tail(s, b) {
                            Err(x) => Err(x),
                            Ok((c, vs)) => match spec_byte(s, c, 0x29) {
                                Err(x) => Err(x),
                                Ok(d) => Ok((d, seq![v] + vs)),
                            },
                        }
                    },
                }
            },
        }
    }
}

/// *(SP body-extension), as the loop of a separated list.
pub open spec fn spec_extension_tail(s: Seq<u8>, j: int) -> SRes<Seq<SpecBodyExtension>>
    decreases s.len() - j, 2int,
{
    if j < 0 || j > s.len() {
        Err(ParseError::Error)
    } else {
        match spec_byte(s, j, 0x20) {
            Err(ParseError::Error) => Ok((j, Seq::empty())),
            Err(x) => Err(x),
            Ok(k) => if k != j + 1 {
                Err(ParseError::Error)
            } else {
                match spec_body_extension(s, k) {
                    Err(ParseError::Error) => Ok((j, Seq::empty())),
                    Err(x) => Err(x),
                    Ok((m, v)) => if m < k || m > s.len() {
                        Err(ParseError::Error)
                    } else {
                        prepend(seq![v], spec_extension_tail(s, m))
                    },
                }
            },
        }
    }
}

pub fn p_body_extension(s: &[u8], i: usize) -> (r: PRes<BodyExtension>)
    requires
        i <= s@.len(),
    ensures
        dv(r) == spec_body_extension(s@, i as int),
        wf(r, s@, i as int),
    decreases s@.len() - i, 1int,
{
    match p_number(s, i) {
        Ok((e, n)) => return Ok((e, BodyExtension::Num(n))),
        Err(ParseError::Error) => {},
        Err(x) => return Err(x),
    }
    match p_nstring_utf8(s, i) {
        Ok((e, v)) => return Ok((e, BodyExtension::Str(v))),
        Err(ParseError::Error) => {},
        Err(x) => return Err(x),
    }
    match p_extension_list(s, i) {
        Ok((e, v)) => {
            proof {
                reveal_with_fuel(<BodyExtension as DeepView>::deep_view, 2);
                let b = BodyExtension::List(v);
                assert(b.deep_view()->List_0 =~= v.deep_view());
            }
            Ok((e, BodyExtension::List(v)))
        },
        Err(x) => Err(x),
    }
}

fn p_extension_list(s: &[u8], i: usize) -> (r: PRes<Vec<BodyExtension>>)
    requires
        i <= s@.len(),
    ensures
        dv(r) == spec_extension_list(s@, i as int),
        wf(r, s@, i as int),
    decreases s@.len() - i, 0int,
{
    let a = match byte(s, i, 0x28) {
        Ok(a) => a,
        Err(x) => return Err(x),
    };
    let (b, v) = match p_body_extension(s, a) {
        Ok(v) => v,
        Err(x) => return Err(x),
    };
    let (c, vs) = match p_extension_tail(s, b) {
        Ok(v) => v,
        Err(x) => return Err(x),
    };
    match byte(s, c, 0x29) {
        Err(x) => Err(x),
        Ok(d) => {
            let mut out: Vec<BodyExtension> = Vec::new();
            let ghost vv = v.deep_view();
            let ghost vsv = vs.deep_view();
            out.push(v);
            let mut vs = vs;
            out.append(&mut vs);
            proof {
                assert(out.deep_view() =~= seq![vv] + vsv);
            }
            Ok((d, out))
        },
    }
}

fn p_extension_tail(s: &[u8], j: usize) -> (r: PRes<Vec<BodyExtension>>)
    requires
        j <= s@.len(),
    ensures
        dv(r) == spec_extension_tail(s@, j as int),
        wf(r, s@, j as int),
    decreases s@.len() - j, 2int,
{
    let k = match byte(s, j, 0x20) {
        Err(ParseError::Error) => {
            let out: Vec<BodyExtension> = Vec::new();
            proof {
                assert(out.deep_view() =~= Seq::<SpecBodyExtension>::empty());
            }
            return Ok((j, out));
        },
        Err(x) => return Err(x),
        Ok(k) => k,
    };
    let (m, v) = match p_body_extension(s, k) {
        Err(ParseError::Error) => {
            let out: Vec<BodyExtension> = Vec::new();
            proof {
                assert(out.deep_view() =~= Seq::<SpecBodyExtension>::empty());
            }
            return Ok((j, out));
        },
        Err(x) => return Err(x),
        Ok(v) => v,
    };
    match p_extension_tail(s, m) {
        Err(x) => Err(x),
        Ok((e, vs)) => {
            let mut out: Vec<BodyExtension> = Vec::new();
            let ghost vv = v.deep_view();
            let ghost vsv = vs.deep_view();
            out.push(v);
            let mut vs = vs;
            out.append(&mut vs);
            proof {
                assert(out.deep_view() =~= seq![vv] + vsv);
            }
            Ok((e, out))
        },
    }
}

// ----- fields and extension data -----

/// SP nstring, decoded.
pub open spec fn spec_sp_nstring_utf8(s: Seq<u8>, i: int) -> SRes<Option<Text>> {
    match spec_kw(s, i, Kw::Sp, false) {
        Err(x) => Err(x),
        Ok(a) => spec_nstring_utf8(s, a),
    }
}

fn p_sp_nstring_utf8(s: &[u8], i: usize) -> (r: PRes<Option<String>>)
    requires
        i <= s@.len(),
    ensures
        dv(r) == spec_sp_nstring_utf8(s@, i as int),
        wf(r, s@, i as int),
{
    match tag_kw(s, i, Kw::Sp, false) {
        Err(x) => Err(x),
        Ok(a) => p_nstring_utf8(s, a),
    }
}

/// body-fields = body-fld-param SP body-fld-id SP body-fld-desc SP body-fld-enc SP body-fld-octets
pub open spec fn spec_body_fields(s: Seq<u8>, i: int) -> SRes<SpecBodyFields> {
    match spec_body_param(s, i) {
        Err(x) => Err(x),
        Ok((a, param)) => match spec_sp_nstring_utf8(s, a) {
            Err(x) => Err(x),
            Ok((b, id)) => match spec_sp_nstring_utf8(s, b) {
                Err(x) => Err(x),
                Ok((c, description)) => match spec_kw(s, c, Kw::Sp, false) {
                    Err(x) => Err(x),
                    Ok(d) => match spec_body_encoding(s, d) {
                        Err(x) => Err(x),
                        Ok((e, transfer_encoding)) => match spec_kw(s, e, Kw::Sp, false) {
                            Err(x) => Err(x),
                            Ok(f) => match spec_number(s, f) {
                                Err(x) => Err(x),
                                Ok((g, octets)) => Ok(
                                    (
                                        g,
                                        SpecBodyFields {
                                            param,
                                            id,
                                            description,
                                            transfer_encoding,
                                            octets,
                                        },
                                    ),
                                ),
                            },
                        },
                    },
                },
            },
        },
    }
}

#[verifier::rlimit(40)]
fn p_body_fields(s: &[u8], i: usize) -> (r: PRes<BodyFields>)
    requires
        i <= s@.len(),
    ensures
        dv(r) == spec_body_fields(s@, i as int),
        wf(r, s@, i as int),
{
    let (a, param) = match p_body_param(s, i) {
        Ok(v) => v,
        Err(x) => return Err(x),
    };
    let (b, id) = match p_sp_nstring_utf8(s, a) {
        Ok(v) => v,
        Err(x) => return Err(x),
    };
    let (c, description) = match p_sp_nstring_utf8(s, b) {
        Ok(v) => v,
        Err(x) => return Err(x),
    };
    let d = match tag_kw(s, c, Kw::Sp, false) {
        Ok(d) => d,
        Err(x) => return Err(x),
    };
    let (e, transfer_encoding) = match p_body_encoding(s, d) {
        Ok(v) => v,
        Err(x) => return Err(x),
    };
    let f = match tag_kw(s, e, Kw::Sp, false) {
        Ok(f) => f,
        Err(x) => return Err(x),
    };
    match p_number(s, f) {
        Err(x) => Err(x),
        Ok((g, octets)) => Ok((g, BodyFields { param, id, description, transfer_encoding, octets })),
    }
}

/// The extension data after the first field, shared by single-part and multipart bodies:
/// [SP body-fld-dsp [SP body-fld-lang [SP body-fld-loc *(SP body-extension)]]], where each
/// part that does not match is left out.
pub open spec fn spec_ext_rest(s: Seq<u8>, i: int) -> SRes<
    (Option<SpecContentDisposition>, Option<Seq<Text>>, Option<Text>, Option<SpecBodyExtension>),
> {
    let disp = spec_opt_opt(
        i,
        match spec_kw(s, i, Kw::Sp, false) {
            Err(x) => Err(x),
            Ok(a) => spec_body_disposition(s, a),
        },
    );
    match disp {
        Err(x) => Err(x),
        Ok((a, disposition)) => {
            let lang = spec_opt_opt(
                a,
                match spec_kw(s, a, Kw::Sp, false) {
                    Err(x) => Err(x),
                    Ok(b) => spec_body_lang(s, b),
                },
            );
            match lang {
                Err(x) => Err(x),
                Ok((b, language)) => match spec_opt_opt(b, spec_sp_nstring_utf8(s, b)) {
                    Err(x) => Err(x),
                    Ok((c, location)) => {
                        let ext = match spec_kw(s, c, Kw::Sp, false) {
                            Err(x) => Err(x),
                            Ok(d) => spec_body_extension(s, d),
                        };
                        match ext {
                            Ok((e, v)) => Ok((e, (disposition, language, location, Some(v)))),
                            Err(ParseError::Error) => Ok((c, (disposition, language, location, None))),
                            Err(x) => Err(x),
                        }
                    },
                },
            }
        },
    }
}

fn p_ext_rest(s: &[u8], i: usize) -> (r: PRes<
    (Option<ContentDisposition>, Option<Vec<String>>, Option<String>, Option<BodyExtension>),
>)
    requires
        i <= s@.len(),
    ensures
        dv(r) == spec_ext_rest(s@, i as int),
        wf(r, s@, i as int),
{
    let disp = match tag_kw(s, i, Kw::Sp, false) {
        Err(x) => Err(x),
        Ok(a) => p_body_disposition(s, a),
    };
    let (a, disposition) = match disp {
        Err(ParseError::Error) => (i, None),
        Err(x) => return Err(x),
        Ok(v) => v,
    };
    let lang = match tag_kw(s, a, Kw::Sp, false) {
        Err(x) => Err(x),
        Ok(b) => p_body_lang(s, b),
    };
    let (b, language) = match lang {
        Err(ParseError::Error) => (a, None),
        Err(x) => return Err(x),
        Ok(v) => v,
    };
    let (c, location) = match p_sp_nstring_utf8(s, b) {
        Err(ParseError::Error) => (b, None),
        Err(x) => return Err(x),
        Ok(v) => v,
    };
    let ext = match tag_kw(s, c, Kw::Sp, false) {
        Err(x) => Err(x),
        Ok(d) => p_body_extension(s, d),
    };
    match ext {
        Ok((e, v)) => Ok((e, (disposition, language, location, Some(v)))),
        Err(ParseError::Error) => Ok((c, (disposition, language, location, None))),
        Err(x) => Err(x),
    }
}

/// body-ext-1part = body-fld-md5 [SP body-fld-dsp [SP body-fld-lang [SP body-fld-loc
/// *(SP body-extension)]]], each part preceded by its space and left out where it does
/// not match.
pub open spec fn spec_body_ext_1part(s: Seq<u8>, i: int) -> SRes<
    (
        Option<Text>,
        (Option<SpecContentDisposition>, Option<Seq<Text>>, Option<Text>, Option<SpecBodyExtension>),
    ),
> {
    match spec_opt_opt(i, spec_sp_nstring_utf8(s, i)) {
        Err(x) => Err(x),
        Ok((a, md5)) => match spec_ext_rest(s, a) {
            Err(x) => Err(x),
            Ok((e, rest)) => Ok((e, (md5, rest))),
        },
    }
}

fn p_body_ext_1part(s: &[u8], i: usize) -> (r: PRes<BodyExt1Part>)
    requires
        i <= s@.len(),
    ensures
        dv(r) == spec_body_ext_1part(s@, i as int),
        wf(r, s@, i as int),
{
    let (a, md5) = match p_sp_nstring_utf8(s, i) {
        Err(ParseError::Error) => (i, None),
        Err(x) => return Err(x),
        Ok(v) => v,
    };
    match p_ext_rest(s, a) {
        Err(x) => Err(x),
        Ok((e, (disposition, language, location, extension))) => Ok(
            (e, BodyExt1Part { md5, disposition, language, location, extension }),
        ),
    }
}

/// body-ext-mpart = body-fld-param [SP body-fld-dsp [SP body-fld-lang [SP body-fld-loc
/// *(SP body-extension)]]], each part preceded by its space and left out where it does
/// not match.
pub open spec fn spec_body_ext_mpart(s: Seq<u8>, i: int) -> SRes<(SpecBodyParams, SpecExtRest)> {
    let param = spec_opt_opt(
        i,
        match spec_kw(s, i, Kw::Sp, false) {
            Err(x) => Err(x),
            Ok(a) => spec_body_param(s, a),
        },
    );
    match param {
        Err(x) => Err(x),
        Ok((a, param)) => match spec_ext_rest(s, a) {
            Err(x) => Err(x),
            Ok((e, rest)) => Ok((e, (param, rest))),
        },
    }
}

fn p_body_ext_mpart(s: &[u8], i: usize) -> (r: PRes<BodyExtMPart>)
    requires
        i <= s@.len(),
    ensures
        dv(r) == spec_body_ext_mpart(s@, i as int),
        wf(r, s@, i as int),
{
    let param = match tag_kw(s, i, Kw::Sp, false) {
        Err(x) => Err(x),
        Ok(a) => p_body_param(s, a),
    };
    let (a, param) = match param {
        Err(ParseError::Error) => (i, None),
        Err(x) => return Err(x),
        Ok(v) => v,
    };
    match p_ext_rest(s, a) {
        Err(x) => Err(x),
        Ok((e, (disposition, language, location, extension))) => Ok(
            (e, BodyExtMPart { param, disposition, language, location, extension }),
        ),
    }
}

// ----- body types -----

pub open spec fn common_of(ty: Text, subtype: Text, params: SpecBodyParams, rest: SpecExtRest) -> SpecBodyContentCommon {
    SpecBodyContentCommon {
        ty: SpecContentType { ty, subtype, params },
        disposition: rest.0,
        language: rest.1,
        location: rest.2,
    }
}

pub open spec fn single_of(fields: SpecBodyFields, md5: Option<Text>) -> SpecBodyContentSinglePart {
    SpecBodyContentSinglePart {
        id: fields.id,
        md5,
        description: fields.description,
        transfer_encoding: fields.transfer_encoding,
        octets: fields.octets,
    }
}

/// The parts of a single-part body that its fields and extension data give.
fn single_parts(ty: String, subtype: String, fields: BodyFields, ext: BodyExt1Part) -> (r: (
    BodyContentCommon,
    BodyContentSinglePart,
    Option<BodyExtension>,
))
    ensures
        r.0.deep_view() == common_of(ty@, subtype@, fields.deep_view().param, ext.deep_view().1),
        r.1.deep_view() == single_of(fields.deep_view(), ext.deep_view().0),
        r.2.deep_view() == ext.deep_view().1.3,
{
    (
        BodyContentCommon {
            ty: ContentType { ty, subtype, params: fields.param },
            disposition: ext.disposition,
            language: ext.language,
            location: ext.location,
        },
        BodyContentSinglePart {
            id: fields.id,
            md5: ext.md5,
            description: fields.description,
            transfer_encoding: fields.transfer_encoding,
            octets: fields.octets,
        },
        ext.extension,
    )
}

fn new_basic(
    common: BodyContentCommon,
    other: BodyContentSinglePart,
    extension: Option<BodyExtension>,
) -> (r: BodyStructure)
    ensures
        r.deep_view() == (SpecBodyStructure::Basic {
            common: common.deep_view(),
            other: other.deep_view(),
            extension: extension.deep_view(),
        }),
{
    BodyStructure::Basic { common, other, extension }
}

fn new_text(
    common: BodyContentCommon,
    other: BodyContentSinglePart,
    lines: u32,
    extension: Option<BodyExtension>,
) -> (r: BodyStructure)
    ensures
        r.deep_view() == (SpecBodyStructure::Text {
            common: common.deep_view(),
            other: other.deep_view(),
            lines,
            extension: extension.deep_view(),
        }),
{
    BodyStructure::Text { common, other, lines, extension }
}

/// media-basic SP body-fields: the type, the subtype and the fields.
pub open spec fn spec_basic_head(s: Seq<u8>, i: int) -> SRes<(Text, Text, SpecBodyFields)> {
    match spec_string_utf8(s, i) {
        Err(x) => Err(x),
        Ok((a, ty)) => match spec_kw(s, a, Kw::Sp, false) {
            Err(x) => Err(x),
            Ok(b) => match spec_string_utf8(s, b) {
                Err(x) => Err(x),
                Ok((c, subtype)) => match spec_kw(s, c, Kw::Sp, false) {
                    Err(x) => Err(x),
                    Ok(d) => match spec_body_fields(s, d) {
                        Err(x) => Err(x),
                        Ok((e, fields)) => Ok((e, (ty, subtype, fields))),
                    },
                },
            },
        },
    }
}

#[verifier::rlimit(40)]
fn p_basic_head(s: &[u8], i: usize) -> (r: PRes<(String, String, BodyFields)>)
    requires
        i <= s@.len(),
    ensures
        dv(r) == spec_basic_head(s@, i as int),
        wf(r, s@, i as int),
{
    let (a, ty) = match p_string_utf8(s, i) {
        Ok(v) => v,
        Err(x) => return Err(x),
    };
    let b = match tag_kw(s, a, Kw::Sp, false) {
        Ok(b) => b,
        Err(x) => return Err(x),
    };
    let (c, subtype) = match p_string_utf8(s, b) {
        Ok(v) => v,
        Err(x) => return Err(x),
    };
    let d = match tag_kw(s, c, Kw::Sp, false) {
        Ok(d) => d,
        Err(x) => return Err(x),
    };
    match p_body_fields(s, d) {
        Err(x) => Err(x),
        Ok((e, fields)) => Ok((e, (ty, subtype, fields))),
    }
}

/// body-type-basic = media-basic SP body-fields, then body-ext-1part
pub open spec fn spec_body_type_basic(s: Seq<u8>, i: int) -> SRes<SpecBodyStructure> {
    match spec_basic_head(s, i) {
        Err(x) => Err(x),
        Ok((e, (ty, subtype, fields))) => match spec_body_ext_1part(s, e) {
            Err(x) => Err(x),
            Ok((f, (md5, rest))) => Ok(
                (
                    f,
                    SpecBodyStructure::Basic {
                        common: common_of(ty, subtype, fields.param, rest),
                        other: single_of(fields, md5),
                        extension: rest.3,
                    },
                ),
            ),
        },
    }
}

fn p_body_type_basic(s: &[u8], i: usize) -> (r: PRes<BodyStructure>)
    requires
        i <= s@.len(),
    ensures
        dv(r) == spec_body_type_basic(s@, i as int),
        wf(r, s@, i as int),
{
    let (e, (ty, subtype, fields)) = match p_basic_head(s, i) {
        Ok(v) => v,
        Err(x) => return Err(x),
    };
    let (f, ext) = match p_body_ext_1part(s, e) {
        Ok(v) => v,
        Err(x) => return Err(x),
    };
    let (common, other, extension) = single_parts(ty, subtype, fields, ext);
    Ok((f, new_basic(common, other, extension)))
}

/// "TEXT" SP media-subtype SP body-fields SP body-fld-lines: the subtype, fields and lines.
pub open spec fn spec_text_head(s: Seq<u8>, i: int) -> SRes<(Text, SpecBodyFields, u32)> {
    match spec_kw(s, i, Kw::QText, true) {
        Err(x) => Err(x),
        Ok(a) => match spec_kw(s, a, Kw::Sp, false) {
            Err(x) => Err(x),
            Ok(b) => match spec_string_utf8(s, b) {
                Err(x) => Err(x),
                Ok((c, subtype)) => match spec_kw(s, c, Kw::Sp, false) {
                    Err(x) => Err(x),
                    Ok(d) => match spec_body_fields(s, d) {
                        Err(x) => Err(x),
                        Ok((e, fields)) => match spec_kw(s, e, Kw::Sp, false) {
                            Err(x) => Err(x),
                            Ok(f) => match spec_number(s, f) {
                                Err(x) => Err(x),
                                Ok((g, lines)) => Ok((g, (subtype, fields, lines))),
                            },
                        },
                    },
                },
            },
        },
    }
}

#[verifier::rlimit(40)]
fn p_text_head(s: &[u8], i: usize) -> (r: PRes<(String, BodyFields, u32)>)
    requires
        i <= s@.len(),
    ensures
        dv(r) == spec_text_head(s@, i as int),
        wf(r, s@, i as int),
{
    let a = match tag_kw(s, i, Kw::QText, true) {
        Ok(a) => a,
        Err(x) => return Err(x),
    };
    let b = match tag_kw(s, a, Kw::Sp, false) {
        Ok(b) => b,
        Err(x) => return Err(x),
    };
    let (c, subtype) = match p_string_utf8(s, b) {
        Ok(v) => v,
        Err(x) => return Err(x),
    };
    let d = match tag_kw(s, c, Kw::Sp, false) {
        Ok(d) => d,
        Err(x) => return Err(x),
    };
    let (e, fields) = match p_body_fields(s, d) {
        Ok(v) => v,
        Err(x) => return Err(x),
    };
    let f = match tag_kw(s, e, Kw::Sp, false) {
        Ok(f) => f,
        Err(x) => return Err(x),
    };
    match p_number(s, f) {
        Err(x) => Err(x),
        Ok((g, lines)) => Ok((g, (subtype, fields, lines))),
    }
}

/// body-type-text = "TEXT" SP media-subtype SP body-fields SP body-fld-lines, then
/// body-ext-1part; the type reads as "TEXT".
pub open spec fn spec_body_type_text(s: Seq<u8>, i: int) -> SRes<SpecBodyStructure> {
    match spec_text_head(s, i) {
        Err(x) => Err(x),
        Ok((g, (subtype, fields, lines))) => match spec_body_ext_1part(s, g) {
            Err(x) => Err(x),
            Ok((h, (md5, rest))) => Ok(
                (
                    h,
                    SpecBodyStructure::Text {
                        common: common_of("TEXT"@, subtype, fields.param, rest),
                        other: single_of(fields, md5),
                        lines,
                        extension: rest.3,
                    },
                ),
            ),
        },
    }
}

fn p_body_type_text(s: &[u8], i: usize) -> (r: PRes<BodyStructure>)
    requires
        i <= s@.len(),
    ensures
        dv(r) == spec_body_type_text(s@, i as int),
        wf(r, s@, i as int),
{
    let (g, (subtype, fields, lines)) = match p_text_head(s, i) {
        Ok(v) => v,
        Err(x) => return Err(x),
    };
    let (h, ext) = match p_body_ext_1part(s, g) {
        Ok(v) => v,
        Err(x) => return Err(x),
    };
    let (common, other, extension) = single_parts("TEXT".to_owned(), subtype, fields, ext);
    Ok((h, new_text(common, other, lines, extension)))
}

fn new_message(
    common: BodyContentCommon,
    other: BodyContentSinglePart,
    envelope: Envelope,
    body: BodyStructure,
    lines: u32,
    extension: Option<BodyExtension>,
) -> (r: BodyStructure)
    ensures
        r.deep_view() == (SpecBodyStructure::Message {
            common: common.deep_view(),
            other: other.deep_view(),
            envelope: envelope.deep_view(),
            body: Box::new(body.deep_view()),
            lines,
            extension: extension.deep_view(),
        }),
{
    BodyStructure::Message { common, other, envelope, body: Box::new(body), lines, extension }
}

fn new_multipart(
    common: BodyContentCommon,
    bodies: Vec<BodyStructure>,
    extension: Option<BodyExtension>,
) -> (r: BodyStructure)
    ensures
        r.deep_view() == (SpecBodyStructure::Multipart {
            common: common.deep_view(),
            bodies: bodies.deep_view(),
            extension: extension.deep_view(),
        }),
{
    let ghost bv = bodies.deep_view();
    let ghost bs = bodies@;
    let r = BodyStructure::Multipart { common, bodies, extension };
    proof {
        reveal_with_fuel(crate::types::model::body_structure_view, 2);
        assert(r.deep_view()->Multipart_bodies =~= bv);
    }
    r
}

/// envelope SP: an envelope and the space after it.
pub open spec fn spec_envelope_sp(s: Seq<u8>, i: int) -> SRes<SpecEnvelope> {
    match spec_envelope(s, i) {
        Err(x) => Err(x),
        Ok((e, envelope)) => match spec_kw(s, e, Kw::Sp, false) {
            Err(x) => Err(x),
            Ok(f) => Ok((f, envelope)),
        },
    }
}

fn p_envelope_sp(s: &[u8], i: usize) -> (r: PRes<Envelope>)
    requires
        i <= s@.len(),
    ensures
        dv(r) == spec_envelope_sp(s@, i as int),
        wf(r, s@, i as int),
        r matches Ok((j, _)) ==> j > i,
{
    let (e, envelope) = match p_envelope(s, i) {
        Ok(v) => v,
        Err(x) => return Err(x),
    };
    match tag_kw(s, e, Kw::Sp, false) {
        Err(x) => Err(x),
        Ok(f) => Ok((f, envelope)),
    }
}

/// "MESSAGE" SP "RFC822" SP body-fields SP: the fields of a message body.
pub open spec fn spec_message_fields(s: Seq<u8>, i: int) -> SRes<SpecBodyFields> {
    match spec_kw(s, i, Kw::QMessageRfc822, true) {
        Err(x) => Err(x),
        Ok(a) => match spec_kw(s, a, Kw::Sp, false) {
            Err(x) => Err(x),
            Ok(b) => match spec_body_fields(s, b) {
                Err(x) => Err(x),
                Ok((c, fields)) => match spec_kw(s, c, Kw::Sp, false) {
                    Err(x) => Err(x),
                    Ok(d) => Ok((d, fields)),
                },
            },
        },
    }
}

#[verifier::rlimit(40)]
fn p_message_fields(s: &[u8], i: usize) -> (r: PRes<BodyFields>)
    requires
        i <= s@.len(),
    ensures
        dv(r) == spec_message_fields(s@, i as int),
        wf(r, s@, i as int),
        r matches Ok((j, _)) ==> j > i,
{
    let a = match tag_kw(s, i, Kw::QMessageRfc822, true) {
        Ok(a) => a,
        Err(x) => return Err(x),
    };
    let b = match tag_kw(s, a, Kw::Sp, false) {
        Ok(b) => b,
        Err(x) => return Err(x),
    };
    let (c, fields) = match p_body_fields(s, b) {
        Ok(v) => v,
        Err(x) => return Err(x),
    };
    match tag_kw(s, c, Kw::Sp, false) {
        Err(x) => Err(x),
        Ok(d) => Ok((d, fields)),
    }
}

/// "MESSAGE" SP "RFC822" SP body-fields SP envelope SP: the fields and the envelope.
pub open spec fn spec_message_head(s: Seq<u8>, i: int) -> SRes<(SpecBodyFields, SpecEnvelope)> {
    match spec_message_fields(s, i) {
        Err(x) => Err(x),
        Ok((d, fields)) => match spec_envelope_sp(s, d) {
            Err(x) => Err(x),
            Ok((f, envelope)) => Ok((f, (fields, envelope))),
        },
    }
}

fn p_message_head(s: &[u8], i: usize) -> (r: PRes<(BodyFields, Envelope)>)
    requires
        i <= s@.len(),
    ensures
        dv(r) == spec_message_head(s@, i as int),
        wf(r, s@, i as int),
        r matches Ok((j, _)) ==> j > i,
{
    let (d, fields) = match p_message_fields(s, i) {
        Ok(v) => v,
        Err(x) => return Err(x),
    };
    match p_envelope_sp(s, d) {
        Err(x) => Err(x),
        Ok((f, envelope)) => Ok((f, (fields, envelope))),
    }
}

/// SP body-fld-lines, then body-ext-1part: the tail of a message body.
pub open spec fn spec_message_tail(s: Seq<u8>, i: int) -> SRes<(u32, (Option<Text>, SpecExtRest))> {
    match spec_kw(s, i, Kw::Sp, false) {
        Err(x) => Err(x),
        Ok(a) => match spec_number(s, a) {
            Err(x) => Err(x),
            Ok((b, lines)) => match spec_body_ext_1part(s, b) {
                Err(x) => Err(x),
                Ok((c, ext)) => Ok((c, (lines, ext))),
            },
        },
    }
}

fn p_message_tail(s: &[u8], i: usize) -> (r: PRes<(u32, BodyExt1Part)>)
    requires
        i <= s@.len(),
    ensures
        dv(r) == spec_message_tail(s@, i as int),
        wf(r, s@, i as int),
{
    let a = match tag_kw(s, i, Kw::Sp, false) {
        Ok(a) => a,
        Err(x) => return Err(x),
    };
    let (b, lines) = match p_number(s, a) {
        Ok(v) => v,
        Err(x) => return Err(x),
    };
    match p_body_ext_1part(s, b) {
        Err(x) => Err(x),
        Ok((c, ext)) => Ok((c, (lines, ext))),
    }
}

/// body-type-msg = "MESSAGE" SP "RFC822" SP body-fields SP envelope SP body SP
/// body-fld-lines, then body-ext-1part; the type reads as "MESSAGE", the subtype as "RFC822".
pub open spec fn spec_body_type_message(s: Seq<u8>, i: int) -> SRes<SpecBodyStructure>
    decreases s.len() - i, 1int,
{
    if i < 0 || i > s.len() {
        Err(ParseError::Error)
    } else {
        match spec_message_head(s, i) {
            Err(x) => Err(x),
            Ok((c, (fields, envelope))) => if c <= i || c > s.len() {
                Err(ParseError::Error)
            } else {
                match spec_body(s, c) {
                    Err(x) => Err(x),
                    Ok((d, body)) => match spec_message_tail(s, d) {
                        Err(x) => Err(x),
                        Ok((e, (lines, (md5, rest)))) => Ok(
                            (
                                e,
                                SpecBodyStructure::Message {
                                    common: common_of("MESSAGE"@, "RFC822"@, fields.param, rest),
                                    other: single_of(fields, md5),
                                    envelope,
                                    body: Box::new(body),
                                    lines,
                                    extension: rest.3,
                                },
                            ),
                        ),
                    },
                }
            },
        }
    }
}

/// body-type-mpart = 1*body SP media-subtype, then body-ext-mpart; the type reads as
/// "MULTIPART".
pub open spec fn spec_body_type_multipart(s: Seq<u8>, i: int) -> SRes<SpecBodyStructure>
    decreases s.len() - i, 1int,
{
    if i < 0 || i > s.len() {
        Err(ParseError::Error)
    } else {
        match spec_body(s, i) {
            Err(x) => Err(x),
            Ok((a, first)) => if a <= i || a > s.len() {
                Err(ParseError::Error)
            } else {
                match spec_bodies_tail(s, a) {
                    Err(x) => Err(x),
                    Ok((b, rest)) => match spec_kw(s, b, Kw::Sp, false) {
                        Err(x) => Err(x),
                        Ok(c) => match spec_string_utf8(s, c) {
                            Err(x) => Err(x),
                            Ok((d, subtype)) => match spec_body_ext_mpart(s, d) {
                                Err(x) => Err(x),
                                Ok((e, (param, ext))) => Ok(
                                    (
                                        e,
                                        SpecBodyStructure::Multipart {
                                            common: common_of("MULTIPART"@, subtype, param, ext),
                                            bodies: seq![first] + rest,
                                            extension: ext.3,
                                        },
                                    ),
                                ),
                            },
                        },
                    },
                }
            },
        }
    }
}

/// The loop of `many1(body)` after its first body.
pub open spec fn spec_bodies_tail(s: Seq<u8>, i: int) -> SRes<Seq<SpecBodyStructure>>
    decreases s.len() - i, 1int,
{
    if i < 0 || i > s.len() {
        Err(ParseError::Error)
    } else {
        match spec_body(s, i) {
            Err(ParseError::Error) => Ok((i, Seq::empty())),
            Err(x) => Err(x),
            Ok((a, v)) => if a <= i || a > s.len() {
                Err(ParseError::Error)
            } else {
                prepend(seq![v], spec_bodies_tail(s, a))
            },
        }
    }
}

/// body = "(" (body-type-1part / body-type-mpart) ")", the single-part types tried as
/// text, message, then basic.
pub open spec fn spec_body(s: Seq<u8>, i: int) -> SRes<SpecBodyStructure>
    decreases s.len() - i, 0int,
{
    if i < 0 || i > s.len() {
        Err(ParseError::Error)
    } else {
        match spec_byte(s, i, 0x28) {
            Err(x) => Err(x),
            Ok(a) => if a != i + 1 {
                Err(ParseError::Error)
            } else {
                let inner = s_or(
                    spec_body_type_text(s, a),
                    s_or(
                        spec_body_type_message(s, a),
                        s_or(spec_body_type_basic(s, a), spec_body_type_multipart(s, a)),
                    ),
                );
                match inner {
                    Err(x) => Err(x),
                    Ok((b, v)) => match spec_byte(s, b, 0x29) {
                        Err(x) => Err(x),
                        Ok(c) => Ok((c, v)),
                    },
                }
            },
        }
    }
}

fn p_body_type_message(s: &[u8], i: usize) -> (r: PRes<BodyStructure>)
    requires
        i <= s@.len(),
    ensures
        dv(r) == spec_body_type_message(s@, i as int),
        wf(r, s@, i as int),
    decreases s@.len() - i, 1int,
{
    let (c, (fields, envelope)) = match p_message_head(s, i) {
        Ok(v) => v,
        Err(x) => return Err(x),
    };
    let (d, body) = match p_body(s, c) {
        Ok(v) => v,
        Err(x) => return Err(x),
    };
    let (e, (lines, ext)) = match p_message_tail(s, d) {
        Ok(v) => v,
        Err(x) => return Err(x),
    };
    let (common, other, extension) = single_parts(
        "MESSAGE".to_owned(),
        "RFC822".to_owned(),
        fields,
        ext,
    );
    Ok((e, new_message(common, other, envelope, body, lines, extension)))
}

fn p_body_type_multipart(s: &[u8], i: usize) -> (r: PRes<BodyStructure>)
    requires
        i <= s@.len(),
    ensures
        dv(r) == spec_body_type_multipart(s@, i as int),
        wf(r, s@, i as int),
    decreases s@.len() - i, 1int,
{
    let (a, first) = match p_body(s, i) {
        Ok(v) => v,
        Err(x) => return Err(x),
    };
    let (b, rest) = match p_bodies_tail(s, a) {
        Ok(v) => v,
        Err(x) => return Err(x),
    };
    let c = match tag_kw(s, b, Kw::Sp, false) {
        Ok(c) => c,
        Err(x) => return Err(x),
    };
    let (d, subtype) = match p_string_utf8(s, c) {
        Ok(v) => v,
        Err(x) => return Err(x),
    };
    let (e, ext) = match p_body_ext_mpart(s, d) {
        Ok(v) => v,
        Err(x) => return Err(x),
    };
    let mut bodies: Vec<BodyStructure> = Vec::new();
    let ghost fv = first.deep_view();
    let ghost rv = rest.deep_view();
    bodies.push(first);
    let mut rest = rest;
    bodies.append(&mut rest);
    proof {
        assert(bodies.deep_view() =~= seq![fv] + rv);
    }
    let common = BodyContentCommon {
        ty: ContentType { ty: "MULTIPART".to_owned(), subtype, params: ext.param },
        disposition: ext.disposition,
        language: ext.language,
        location: ext.location,
    };
    Ok((e, new_multipart(common, bodies, ext.extension)))
}

fn p_bodies_tail(s: &[u8], i: usize) -> (r: PRes<Vec<BodyStructure>>)
    requires
        i <= s@.len(),
    ensures
        dv(r) == spec_bodies_tail(s@, i as int),
        wf(r, s@, i as int),
    decreases s@.len() - i, 1int,
{
    let (a, v) = match p_body(s, i) {
        Err(ParseError::Error) => {
            let out: Vec<BodyStructure> = Vec::new();
            proof {
                assert(out.deep_view() =~= Seq::<SpecBodyStructure>::empty());
            }
            return Ok((i, out));
        },
        Err(x) => return Err(x),
        Ok(v) => v,
    };
    match p_bodies_tail(s, a) {
        Err(x) => Err(x),
        Ok((e, vs)) => {
            let mut out: Vec<BodyStructure> = Vec::new();
            let ghost vv = v.deep_view();
            let ghost vsv = vs.deep_view();
            out.push(v);
            let mut vs = vs;
            out.append(&mut vs);
            proof {
                assert(out.deep_view() =~= seq![vv] + vsv);
            }
            Ok((e, out))
        },
    }
}

pub fn p_body(s: &[u8], i: usize) -> (r: PRes<BodyStructure>)
    requires
        i <= s@.len(),
    ensures
        dv(r) == spec_body(s@, i as int),
        wf(r, s@, i as int),
        r matches Ok((j, _)) ==> j > i,
    decreases s@.len() - i, 0int,
{
    let a = match byte(s, i, 0x28) {
        Ok(a) => a,
        Err(x) => return Err(x),
    };
    let inner = match p_body_type_text(s, a) {
        Err(ParseError::Error) => match p_body_type_message(s, a) {
            Err(ParseError::Error) => match p_body_type_basic(s, a) {
                Err(ParseError::Error) => p_body_type_multipart(s, a),
                r => r,
            },
            r => r,
        },
        r => r,
    };
    let (b, v) = match inner {
        Ok(v) => v,
        Err(x) => return Err(x),
    };
    match byte(s, b, 0x29) {
        Err(x) => Err(x),
        Ok(c) => Ok((c, v)),
    }
}

/// "BODYSTRUCTURE" SP body
pub open spec fn spec_msg_att_body_structure(s: Seq<u8>, i: int) -> SRes<SpecAttributeValue> {
    match spec_kw(s, i, Kw::BodyStructureSp, true) {
        Err(x) => Err(x),
        Ok(a) => match spec_body(s, a) {
            Err(x) => Err(x),
            Ok((e, b)) => Ok((e, SpecAttributeValue::BodyStructure(b))),
        },
    }
}

pub fn p_msg_att_body_structure(s: &[u8], i: usize) -> (r: PRes<AttributeValue>)
    requires
        i <= s@.len(),
    ensures
        dv(r) == spec_msg_att_body_structure(s@, i as int),
        wf(r, s@, i as int),
{
    match tag_kw(s, i, Kw::BodyStructureSp, true) {
        Err(x) => Err(x),
        Ok(a) => match p_body(s, a) {
            Err(x) => Err(x),
            Ok((e, b)) => Ok((e, AttributeValue::BodyStructure(b))),
        },
    }
}


// ----- the public parsers, at the start of an input -----

/// The body parameters at the start of `i`.
pub fn body_param(i: &[u8]) -> (r: crate::parser::base::IResult<'_, Option<Vec<(String, String)>>>)
    ensures
        crate::parser::base::iresult_is(i@, r, spec_body_param(i@, 0)),
{
    crate::parser::base::finish(i, p_body_param(i, 0))
}

/// The body languages at the start of `i`.
pub fn body_lang(i: &[u8]) -> (r: crate::parser::base::IResult<'_, Option<Vec<String>>>)
    ensures
        crate::parser::base::iresult_is(i@, r, spec_body_lang(i@, 0)),
{
    crate::parser::base::finish(i, p_body_lang(i, 0))
}

/// The body extension at the start of `i`.
pub fn body_extension(i: &[u8]) -> (r: crate::parser::base::IResult<'_, BodyExtension>)
    ensures
        crate::parser::base::iresult_is(i@, r, spec_body_extension(i@, 0)),
{
    crate::parser::base::finish(i, p_body_extension(i, 0))
}

/// The body disposition at the start of `i`.
pub fn body_disposition(i: &[u8]) -> (r: crate::parser::base::IResult<'_, Option<ContentDisposition>>)
    ensures
        crate::parser::base::iresult_is(i@, r, spec_body_disposition(i@, 0)),
{
    crate::parser::base::finish(i, p_body_disposition(i, 0))
}

/// The body structure at the start of `i`.
pub fn body(i: &[u8]) -> (r: crate::parser::base::IResult<'_, BodyStructure>)
    ensures
        crate::parser::base::iresult_is(i@, r, spec_body(i@, 0)),
{
    crate::parser::base::finish(i, p_body(i, 0))
}

} // verus!
