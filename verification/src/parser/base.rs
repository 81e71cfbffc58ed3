//! Parsing results, byte classes and the grammar's basic tokens.

use vstd::prelude::*;
use vstd::utf8::{decode_utf8, valid_utf8};

verus! {

// ----- results -----

/// How much more input a parser asked for before it can decide.
#[derive(Clone, Copy, Debug, PartialEq, Eq, Structural)]
pub enum Needed {
    Unknown,
    Size(usize),
}

/// Why a parser gave no value: it ran out of input, or the input does not match.
#[derive(Clone, Copy, Debug, PartialEq, Eq, Structural)]
pub enum ParseError {
    Incomplete(Needed),
    Error,
}

/// A result over positions in the input, as the grammar states it.
pub type SRes<T> = Result<(int, T), ParseError>;

/// A result over positions in the input, as the parsers return it.
pub type PRes<T> = Result<(usize, T), ParseError>;

/// A position reached, or why none was.
pub type SPos = Result<int, ParseError>;

pub type PPos = Result<usize, ParseError>;

/// A result that carries the rest of the input, as the public parsers return it.
pub type IResult<'a, T> = Result<(&'a [u8], T), ParseError>;

pub open spec fn needed(n: int) -> Needed {
    if n > 0 { Needed::Size(n as usize) } else { Needed::Unknown }
}

pub open spec fn incomplete(n: int) -> ParseError {
    ParseError::Incomplete(needed(n))
}

pub open spec fn dv<T: DeepView>(r: PRes<T>) -> SRes<T::V> {
    match r {
        Ok((n, v)) => Ok((n as int, v.deep_view())),
        Err(e) => Err(e),
    }
}

pub open spec fn pv(r: PPos) -> SPos {
    match r {
        Ok(n) => Ok(n as int),
        Err(e) => Err(e),
    }
}

/// A successful parse starting at `i` ends between `i` and the end of `s`.
pub open spec fn wf<T>(r: PRes<T>, s: Seq<u8>, i: int) -> bool {
    r matches Ok((j, _)) ==> i <= j <= s.len()
}

pub open spec fn wfp(r: PPos, s: Seq<u8>, i: int) -> bool {
    r matches Ok(j) ==> i <= j <= s.len()
}

/// What a public parser returned, read against the grammar's result at position 0.
pub open spec fn iresult_is<T: DeepView>(input: Seq<u8>, r: IResult<'_, T>, g: SRes<T::V>) -> bool {
    match (r, g) {
        (Ok((rest, v)), Ok((j, w))) => 0 <= j <= input.len() && rest@ == input.subrange(
            j,
            input.len() as int,
        ) && v.deep_view() == w,
        (Err(e1), Err(e2)) => e1 == e2,
        _ => false,
    }
}

pub open spec fn utf8_opt(b: Seq<u8>) -> Option<Seq<char>> {
    if valid_utf8(b) {
        Some(decode_utf8(b))
    } else {
        None
    }
}

pub fn incomplete_of(n: usize) -> (e: ParseError)
    ensures
        e == incomplete(n as int),
{
    if n > 0 {
        ParseError::Incomplete(Needed::Size(n))
    } else {
        ParseError::Incomplete(Needed::Unknown)
    }
}

/// Calls `String::from_utf8`: `Some` exactly for valid UTF-8, holding the decoded characters.
#[verifier::external_body]
fn string_from_utf8(v: Vec<u8>) -> (r: Option<String>)
    ensures
        r is Some <==> valid_utf8(v@),
        r matches Some(st) ==> st@ == decode_utf8(v@),
{
    String::from_utf8(v).ok()
}

/// Copies `s[a..b]` into a vector.
pub fn copy_bytes(s: &[u8], a: usize, b: usize) -> (v: Vec<u8>)
    requires
        a <= b <= s@.len(),
    ensures
        v@ == s@.subrange(a as int, b as int),
        v.deep_view() == s@.subrange(a as int, b as int),
{
    let v = vstd::slice::slice_to_vec(vstd::slice::slice_subrange(s, a, b));
    assert(v.deep_view() =~= s@.subrange(a as int, b as int));
    v
}

/// Decodes `s[a..b]` as UTF-8.
pub fn utf8_string(s: &[u8], a: usize, b: usize) -> (r: Option<String>)
    requires
        a <= b <= s@.len(),
    ensures
        r.deep_view() == utf8_opt(s@.subrange(a as int, b as int)),
{
    let v = copy_bytes(s, a, b);
    string_from_utf8(v)
}

pub proof fn lemma_dv_push<T: DeepView>(v1: Seq<T>, v2: Seq<T>, x: T)
    requires
        v2 == v1.push(x),
    ensures
        Seq::new(v2.len(), |k: int| v2[k].deep_view()) == Seq::new(
            v1.len(),
            |k: int| v1[k].deep_view(),
        ).push(x.deep_view()),
{
    assert(Seq::new(v2.len(), |k: int| v2[k].deep_view()) =~= Seq::new(
        v1.len(),
        |k: int| v1[k].deep_view(),
    ).push(x.deep_view()));
}

// ----- byte classes -----

/// CHAR = %x01-7F
pub open spec fn spec_is_char(c: u8) -> bool {
    0x01 <= c && c <= 0x7f
}

/// list-wildcards = "%" / "*"
pub open spec fn spec_is_list_wildcards(c: u8) -> bool {
    c == 0x25 || c == 0x2a
}

/// quoted-specials = DQUOTE / "\"
pub open spec fn spec_is_quoted_specials(c: u8) -> bool {
    c == 0x22 || c == 0x5c
}

/// resp-specials = "]"
pub open spec fn spec_is_resp_specials(c: u8) -> bool {
    c == 0x5d
}

/// atom-specials = "(" / ")" / "{" / SP / CTL / list-wildcards / quoted-specials / resp-specials,
/// where CTL is %x00-1F / %x7F.
pub open spec fn spec_is_atom_specials(c: u8) -> bool {
    c == 0x28 || c == 0x29 || c == 0x7b || c == 0x20 || c < 32 || c == 0x7f || spec_is_list_wildcards(c)
        || spec_is_quoted_specials(c) || spec_is_resp_specials(c)
}

/// ATOM-CHAR = <any CHAR except atom-specials>
pub open spec fn spec_is_atom_char(c: u8) -> bool {
    spec_is_char(c) && !spec_is_atom_specials(c)
}

/// ASTRING-CHAR = ATOM-CHAR / resp-specials
pub open spec fn spec_is_astring_char(c: u8) -> bool {
    spec_is_atom_char(c) || spec_is_resp_specials(c)
}

/// TEXT-CHAR = <any CHAR except CR and LF>
pub open spec fn spec_is_text_char(c: u8) -> bool {
    spec_is_char(c) && c != 0x0d && c != 0x0a
}

#[verifier::when_used_as_spec(spec_is_char)]
pub fn is_char(c: u8) -> (r: bool)
    ensures
        r == spec_is_char(c),
{
    0x01 <= c && c <= 0x7f
}

#[verifier::when_used_as_spec(spec_is_list_wildcards)]
pub fn is_list_wildcards(c: u8) -> (r: bool)
    ensures
        r == spec_is_list_wildcards(c),
{
    c == 0x25 || c == 0x2a
}

#[verifier::when_used_as_spec(spec_is_quoted_specials)]
pub fn is_quoted_specials(c: u8) -> (r: bool)
    ensures
        r == spec_is_quoted_specials(c),
{
    c == 0x22 || c == 0x5c
}

#[verifier::when_used_as_spec(spec_is_resp_specials)]
pub fn is_resp_specials(c: u8) -> (r: bool)
    ensures
        r == spec_is_resp_specials(c),
{
    c == 0x5d
}

#[verifier::when_used_as_spec(spec_is_atom_specials)]
pub fn is_atom_specials(c: u8) -> (r: bool)
    ensures
        r == spec_is_atom_specials(c),
{
    c == 0x28 || c == 0x29 || c == 0x7b || c == 0x20 || c < 32 || c == 0x7f || is_list_wildcards(c)
        || is_quoted_specials(c) || is_resp_specials(c)
}

#[verifier::when_used_as_spec(spec_is_atom_char)]
pub fn is_atom_char(c: u8) -> (r: bool)
    ensures
        r == spec_is_atom_char(c),
{
    is_char(c) && !is_atom_specials(c)
}

#[verifier::when_used_as_spec(spec_is_astring_char)]
pub fn is_astring_char(c: u8) -> (r: bool)
    ensures
        r == spec_is_astring_char(c),
{
    is_atom_char(c) || is_resp_specials(c)
}

#[verifier::when_used_as_spec(spec_is_text_char)]
pub fn is_text_char(c: u8) -> (r: bool)
    ensures
        r == spec_is_text_char(c),
{
    is_char(c) && c != 0x0d && c != 0x0a
}

/// The byte classes that the grammar scans runs of.
#[derive(Clone, Copy, PartialEq, Eq, Structural)]
pub enum Class {
    Digit,
    Atom,
    AString,
    Text,
    /// TEXT-CHAR except quoted-specials: the plain bytes of a quoted string.
    QuotedText,
    /// ASTRING-CHAR except "+": the bytes of a command tag.
    Tag,
    /// SP or HTAB.
    Space,
    /// The bytes of a component of a metadata entry name (RFC 5464).
    EntryComponent,
    /// SP alone.
    Sp,
}

pub open spec fn class_has(c: Class, b: u8) -> bool {
    match c {
        Class::Digit => 0x30 <= b && b <= 0x39,
        Class::Atom => spec_is_atom_char(b),
        Class::AString => spec_is_astring_char(b),
        Class::Text => spec_is_text_char(b),
        Class::QuotedText => spec_is_text_char(b) && !spec_is_quoted_specials(b),
        Class::Tag => b != 0x2b && spec_is_astring_char(b),
        Class::Space => b == 0x20 || b == 0x09,
        Class::EntryComponent => 0x19 < b && b < 0x80 && b != 0x2a && b != 0x25 && b != 0x2f,
        Class::Sp => b == 0x20,
    }
}

pub fn class_test(c: Class, b: u8) -> (r: bool)
    ensures
        r == class_has(c, b),
{
    match c {
        Class::Digit => 0x30 <= b && b <= 0x39,
        Class::Atom => is_atom_char(b),
        Class::AString => is_astring_char(b),
        Class::Text => is_text_char(b),
        Class::QuotedText => is_text_char(b) && !is_quoted_specials(b),
        Class::Tag => b != 0x2b && is_astring_char(b),
        Class::Space => b == 0x20 || b == 0x09,
        Class::EntryComponent => 0x19 < b && b < 0x80 && b != 0x2a && b != 0x25 && b != 0x2f,
        Class::Sp => b == 0x20,
    }
}

/// The end of the run of bytes of class `c` that starts at `i`.
pub open spec fn scan_end(s: Seq<u8>, i: int, c: Class) -> int
    decreases s.len() - i,
{
    if i < 0 || i >= s.len() {
        s.len() as int
    } else if !class_has(c, s[i]) {
        i
    } else {
        scan_end(s, i + 1, c)
    }
}

pub proof fn lemma_scan_end(s: Seq<u8>, i: int, c: Class)
    requires
        0 <= i <= s.len(),
    ensures
        i <= scan_end(s, i, c) <= s.len(),
        forall|k: int| i <= k < scan_end(s, i, c) ==> class_has(c, #[trigger] s[k]),
        scan_end(s, i, c) < s.len() ==> !class_has(c, s[scan_end(s, i, c)]),
    decreases s.len() - i,
{
    if i < s.len() && class_has(c, s[i]) {
        lemma_scan_end(s, i + 1, c);
    }
}

pub fn scan(s: &[u8], i: usize, c: Class) -> (e: usize)
    requires
        i <= s@.len(),
    ensures
        e as int == scan_end(s@, i as int, c),
        i <= e <= s@.len(),
{
    let mut j = i;
    while j < s.len() && class_test(c, s[j])
        invariant
            i <= j <= s@.len(),
            scan_end(s@, i as int, c) == scan_end(s@, j as int, c),
        decreases s@.len() - j,
    {
        j = j + 1;
    }
    j
}

/// take_while, streaming: the run may not reach the end of the input.
pub open spec fn spec_take_while(s: Seq<u8>, i: int, c: Class) -> SPos {
    if scan_end(s, i, c) == s.len() {
        Err(incomplete(1))
    } else {
        Ok(scan_end(s, i, c))
    }
}

/// take_while1, streaming: a nonempty run that does not reach the end of the input.
pub open spec fn spec_take_while1(s: Seq<u8>, i: int, c: Class) -> SPos {
    if scan_end(s, i, c) == s.len() {
        Err(incomplete(1))
    } else if scan_end(s, i, c) == i {
        Err(ParseError::Error)
    } else {
        Ok(scan_end(s, i, c))
    }
}

/// take_while1 on complete input: a nonempty run, which may end the input.
pub open spec fn spec_take_while1_complete(s: Seq<u8>, i: int, c: Class) -> SPos {
    if scan_end(s, i, c) == i {
        Err(ParseError::Error)
    } else {
        Ok(scan_end(s, i, c))
    }
}

pub fn take_while(s: &[u8], i: usize, c: Class) -> (r: PPos)
    requires
        i <= s@.len(),
    ensures
        pv(r) == spec_take_while(s@, i as int, c),
        wfp(r, s@, i as int),
{
    let e = scan(s, i, c);
    if e == s.len() {
        Err(incomplete_of(1))
    } else {
        Ok(e)
    }
}

pub fn take_while1(s: &[u8], i: usize, c: Class) -> (r: PPos)
    requires
        i <= s@.len(),
    ensures
        pv(r) == spec_take_while1(s@, i as int, c),
        wfp(r, s@, i as int),
        r matches Ok(j) ==> j > i,
{
    let e = scan(s, i, c);
    if e == s.len() {
        Err(incomplete_of(1))
    } else if e == i {
        Err(ParseError::Error)
    } else {
        Ok(e)
    }
}

pub fn take_while1_complete(s: &[u8], i: usize, c: Class) -> (r: PPos)
    requires
        i <= s@.len(),
    ensures
        pv(r) == spec_take_while1_complete(s@, i as int, c),
        wfp(r, s@, i as int),
{
    let e = scan(s, i, c);
    if e == i {
        Err(ParseError::Error)
    } else {
        Ok(e)
    }
}

// ----- literal tokens -----

/// ASCII lower case, as a case-insensitive comparison reads a byte.
pub open spec fn lower(b: u8) -> u8 {
    if 65 <= b && b <= 90 {
        (b + 32) as u8
    } else {
        b
    }
}

pub open spec fn byte_match(a: u8, b: u8, ci: bool) -> bool {
    if ci {
        lower(a) == lower(b)
    } else {
        a == b
    }
}

pub open spec fn min(a: int, b: int) -> int {
    if a < b {
        a
    } else {
        b
    }
}

/// The token `t` at `i`: `ci` compares bytes case-insensitively. Input that stops
/// inside a matching prefix asks for the bytes that are missing.
pub open spec fn spec_tag(s: Seq<u8>, i: int, t: Seq<u8>, ci: bool) -> SPos {
    let avail = s.len() - i;
    if exists|k: int| 0 <= k < min(avail, t.len() as int) && !byte_match(s[i + k], t[k], ci) {
        Err(ParseError::Error)
    } else if avail < t.len() {
        Err(incomplete(t.len() - avail))
    } else {
        Ok(i + t.len())
    }
}

/// A keyword whose bytes stand at `i` is read there, up to its end.
pub proof fn lemma_kw_reads(s: Seq<u8>, i: int, k: Kw, ci: bool)
    requires
        0 <= i,
        i + kw_bytes(k).len() <= s.len(),
        s.subrange(i, i + kw_bytes(k).len()) == kw_bytes(k),
    ensures
        spec_kw(s, i, k, ci) == Ok::<int, ParseError>(i + kw_bytes(k).len()),
{
    let t = kw_bytes(k);
    assert forall|j: int| 0 <= j < min(s.len() - i, t.len() as int) implies byte_match(s[i + j], t[j], ci) by {
        assert(s[i + j] == s.subrange(i, i + t.len())[j]);
    }
}

/// A keyword is read where each byte at `i` on matches its byte, as `ci` compares them.
pub proof fn lemma_kw_reads_matching(s: Seq<u8>, i: int, k: Kw, ci: bool)
    requires
        0 <= i,
        i + kw_bytes(k).len() <= s.len(),
        forall|j: int| 0 <= j < kw_bytes(k).len() ==> byte_match(#[trigger] s[i + j], kw_bytes(k)[j], ci),
    ensures
        spec_kw(s, i, k, ci) == Ok::<int, ParseError>(i + kw_bytes(k).len()),
{
}

/// A keyword is refused where a byte of the input differs from its byte at the same
/// place.
pub proof fn lemma_kw_refuses(s: Seq<u8>, i: int, k: Kw, ci: bool, p: int)
    requires
        0 <= i,
        0 <= p < kw_bytes(k).len(),
        i + p < s.len(),
        !byte_match(s[i + p], kw_bytes(k)[p], ci),
    ensures
        spec_kw(s, i, k, ci) == Err::<int, ParseError>(ParseError::Error),
{
}

fn lower_byte(b: u8) -> (r: u8)
    ensures
        r == lower(b),
{
    if 65 <= b && b <= 90 {
        b + 32
    } else {
        b
    }
}

pub fn tag(s: &[u8], i: usize, t: &[u8], ci: bool) -> (r: PPos)
    requires
        i <= s@.len(),
    ensures
        pv(r) == spec_tag(s@, i as int, t@, ci),
        wfp(r, s@, i as int),
{
    let avail = s.len() - i;
    let m = if avail < t.len() {
        avail
    } else {
        t.len()
    };
    let mut k: usize = 0;
    while k < m
        invariant
            k <= m,
            m <= avail,
            i + m <= s@.len(),
            s@.len() <= usize::MAX,
            m <= t@.len(),
            m as int == min(avail as int, t@.len() as int),
            avail == s@.len() - i,
            i <= s@.len(),
            forall|q: int| 0 <= q < k ==> byte_match(s@[i + q], t@[q], ci),
        decreases m - k,
    {
        let a = s[i + k];
        let b = t[k];
        let same = if ci {
            lower_byte(a) == lower_byte(b)
        } else {
            a == b
        };
        if !same {
            assert(!byte_match(s@[i + k], t@[k as int], ci));
            return Err(ParseError::Error);
        }
        k = k + 1;
    }
    if avail < t.len() {
        Err(incomplete_of(t.len() - avail))
    } else {
        Ok(i + t.len())
    }
}

/// The literal tokens of the grammar.
#[derive(Clone, Copy, PartialEq, Eq, Structural)]
pub enum Kw {
    LBrace,
    RBrace,
    Crlf,
    Nil,
    Colon,
    Comma,
    Sp,
    LParen,
    RParen,
    LBracket,
    RBracket,
    Lt,
    Gt,
    Dot,
    Plus,
    StarSp,
    Backslash,
    BackslashStar,
    OkKw,
    No,
    Bad,
    PreAuth,
    Bye,
    Alert,
    BadCharset,
    Capability,
    ParseKw,
    PermanentFlags,
    ReadOnly,
    ReadWrite,
    TryCreate,
    UidValiditySp,
    UidNextSp,
    UnseenSp,
    HighestModSeqSp,
    AppendUidSp,
    CopyUidSp,
    UidNotSticky,
    MetadataLongEntries,
    MetadataMaxSize,
    MetadataTooMany,
    MetadataNoPrivate,
    Imap4rev1,
    AuthEq,
    FlagsSp,
    SpExists,
    ListSp,
    LsubSp,
    StatusSp,
    SpRecent,
    Search,
    Sort,
    GmLabelsSp,
    GmMsgIdSp,
    GmThrIdSp,
    MessagesSp,
    RecentSp,
    NoInferiors,
    NoSelect,
    Marked,
    Unmarked,
    All,
    Archive,
    Drafts,
    Flagged,
    Junk,
    Sent,
    Trash,
    Body,
    BodyStructureSp,
    EnvelopeSp,
    InternalDateSp,
    ModSeqSp,
    Rfc822Sp,
    Rfc822HeaderSp,
    Rfc822SizeSp,
    Rfc822TextSp,
    UidSp,
    SpFetchSp,
    SpExpunge,
    HeaderFields,
    DotNot,
    Header,
    Text,
    Mime,
    Enabled,
    VanishedSp,
    EarlierSp,
    QuotaKw,
    QuotaRootKw,
    Storage,
    Message,
    IdKw,
    AclKw,
    ListRightsKw,
    MyRightsKw,
    MetadataSp,
    QText,
    QMessageRfc822,
    SevenBit,
    EightBit,
    Binary,
    Base64,
    QuotedPrintable,
    Dquote,
    Inbox,
    Private,
    Shared,
    Admin,
    Comment,
    Vendor,
}

/// The bytes of each token.
pub open spec fn kw_bytes(k: Kw) -> Seq<u8> {
    match k {
        Kw::LBrace => seq![0x7bu8],
        Kw::RBrace => seq![0x7du8],
        Kw::Crlf => seq![0x0du8, 0x0au8],
        Kw::Nil => seq![0x4eu8, 0x49u8, 0x4cu8],
        Kw::Colon => seq![0x3au8],
        Kw::Comma => seq![0x2cu8],
        Kw::Sp => seq![0x20u8],
        Kw::LParen => seq![0x28u8],
        Kw::RParen => seq![0x29u8],
        Kw::LBracket => seq![0x5bu8],
        Kw::RBracket => seq![0x5du8],
        Kw::Lt => seq![0x3cu8],
        Kw::Gt => seq![0x3eu8],
        Kw::Dot => seq![0x2eu8],
        Kw::Plus => seq![0x2bu8],
        Kw::StarSp => seq![0x2au8, 0x20u8],
        Kw::Backslash => seq![0x5cu8],
        Kw::BackslashStar => seq![0x5cu8, 0x2au8],
        Kw::OkKw => seq![0x4fu8, 0x4bu8],
        Kw::No => seq![0x4eu8, 0x4fu8],
        Kw::Bad => seq![0x42u8, 0x41u8, 0x44u8],
        Kw::PreAuth => seq![0x50u8, 0x52u8, 0x45u8, 0x41u8, 0x55u8, 0x54u8, 0x48u8],
        Kw::Bye => seq![0x42u8, 0x59u8, 0x45u8],
        Kw::Alert => seq![0x41u8, 0x4cu8, 0x45u8, 0x52u8, 0x54u8],
        Kw::BadCharset => seq![0x42u8, 0x41u8, 0x44u8, 0x43u8, 0x48u8, 0x41u8, 0x52u8, 0x53u8, 0x45u8, 0x54u8],
        Kw::Capability => seq![0x43u8, 0x41u8, 0x50u8, 0x41u8, 0x42u8, 0x49u8, 0x4cu8, 0x49u8, 0x54u8, 0x59u8],
        Kw::ParseKw => seq![0x50u8, 0x41u8, 0x52u8, 0x53u8, 0x45u8],
        Kw::PermanentFlags => seq![0x50u8, 0x45u8, 0x52u8, 0x4du8, 0x41u8, 0x4eu8, 0x45u8, 0x4eu8, 0x54u8, 0x46u8, 0x4cu8, 0x41u8, 0x47u8, 0x53u8, 0x20u8],
        Kw::ReadOnly => seq![0x52u8, 0x45u8, 0x41u8, 0x44u8, 0x2du8, 0x4fu8, 0x4eu8, 0x4cu8, 0x59u8],
        Kw::ReadWrite => seq![0x52u8, 0x45u8, 0x41u8, 0x44u8, 0x2du8, 0x57u8, 0x52u8, 0x49u8, 0x54u8, 0x45u8],
        Kw::TryCreate => seq![0x54u8, 0x52u8, 0x59u8, 0x43u8, 0x52u8, 0x45u8, 0x41u8, 0x54u8, 0x45u8],
        Kw::UidValiditySp => seq![0x55u8, 0x49u8, 0x44u8, 0x56u8, 0x41u8, 0x4cu8, 0x49u8, 0x44u8, 0x49u8, 0x54u8, 0x59u8, 0x20u8],
        Kw::UidNextSp => seq![0x55u8, 0x49u8, 0x44u8, 0x4eu8, 0x45u8, 0x58u8, 0x54u8, 0x20u8],
        Kw::UnseenSp => seq![0x55u8, 0x4eu8, 0x53u8, 0x45u8, 0x45u8, 0x4eu8, 0x20u8],
        Kw::HighestModSeqSp => seq![0x48u8, 0x49u8, 0x47u8, 0x48u8, 0x45u8, 0x53u8, 0x54u8, 0x4du8, 0x4fu8, 0x44u8, 0x53u8, 0x45u8, 0x51u8, 0x20u8],
        Kw::AppendUidSp => seq![0x41u8, 0x50u8, 0x50u8, 0x45u8, 0x4eu8, 0x44u8, 0x55u8, 0x49u8, 0x44u8, 0x20u8],
        Kw::CopyUidSp => seq![0x43u8, 0x4fu8, 0x50u8, 0x59u8, 0x55u8, 0x49u8, 0x44u8, 0x20u8],
        Kw::UidNotSticky => seq![0x55u8, 0x49u8, 0x44u8, 0x4eu8, 0x4fu8, 0x54u8, 0x53u8, 0x54u8, 0x49u8, 0x43u8, 0x4bu8, 0x59u8],
        Kw::MetadataLongEntries => seq![0x4du8, 0x45u8, 0x54u8, 0x41u8, 0x44u8, 0x41u8, 0x54u8, 0x41u8, 0x20u8, 0x4cu8, 0x4fu8, 0x4eu8, 0x47u8, 0x45u8, 0x4eu8, 0x54u8, 0x52u8, 0x49u8, 0x45u8, 0x53u8, 0x20u8],
        Kw::MetadataMaxSize => seq![0x4du8, 0x45u8, 0x54u8, 0x41u8, 0x44u8, 0x41u8, 0x54u8, 0x41u8, 0x20u8, 0x4du8, 0x41u8, 0x58u8, 0x53u8, 0x49u8, 0x5au8, 0x45u8, 0x20u8],
        Kw::MetadataTooMany => seq![0x4du8, 0x45u8, 0x54u8, 0x41u8, 0x44u8, 0x41u8, 0x54u8, 0x41u8, 0x20u8, 0x54u8, 0x4fu8, 0x4fu8, 0x4du8, 0x41u8, 0x4eu8, 0x59u8],
        Kw::MetadataNoPrivate => seq![0x4du8, 0x45u8, 0x54u8, 0x41u8, 0x44u8, 0x41u8, 0x54u8, 0x41u8, 0x20u8, 0x4eu8, 0x4fu8, 0x50u8, 0x52u8, 0x49u8, 0x56u8, 0x41u8, 0x54u8, 0x45u8],
        Kw::Imap4rev1 => seq![0x49u8, 0x4du8, 0x41u8, 0x50u8, 0x34u8, 0x72u8, 0x65u8, 0x76u8, 0x31u8],
        Kw::AuthEq => seq![0x41u8, 0x55u8, 0x54u8, 0x48u8, 0x3du8],
        Kw::FlagsSp => seq![0x46u8, 0x4cu8, 0x41u8, 0x47u8, 0x53u8, 0x20u8],
        Kw::SpExists => seq![0x20u8, 0x45u8, 0x58u8, 0x49u8, 0x53u8, 0x54u8, 0x53u8],
        Kw::ListSp => seq![0x4cu8, 0x49u8, 0x53u8, 0x54u8, 0x20u8],
        Kw::LsubSp => seq![0x4cu8, 0x53u8, 0x55u8, 0x42u8, 0x20u8],
        Kw::StatusSp => seq![0x53u8, 0x54u8, 0x41u8, 0x54u8, 0x55u8, 0x53u8, 0x20u8],
        Kw::SpRecent => seq![0x20u8, 0x52u8, 0x45u8, 0x43u8, 0x45u8, 0x4eu8, 0x54u8],
        Kw::Search => seq![0x53u8, 0x45u8, 0x41u8, 0x52u8, 0x43u8, 0x48u8],
        Kw::Sort => seq![0x53u8, 0x4fu8, 0x52u8, 0x54u8],
        Kw::GmLabelsSp => seq![0x58u8, 0x2du8, 0x47u8, 0x4du8, 0x2du8, 0x4cu8, 0x41u8, 0x42u8, 0x45u8, 0x4cu8, 0x53u8, 0x20u8],
        Kw::GmMsgIdSp => seq![0x58u8, 0x2du8, 0x47u8, 0x4du8, 0x2du8, 0x4du8, 0x53u8, 0x47u8, 0x49u8, 0x44u8, 0x20u8],
        Kw::GmThrIdSp => seq![0x58u8, 0x2du8, 0x47u8, 0x4du8, 0x2du8, 0x54u8, 0x48u8, 0x52u8, 0x49u8, 0x44u8, 0x20u8],
        Kw::MessagesSp => seq![0x4du8, 0x45u8, 0x53u8, 0x53u8, 0x41u8, 0x47u8, 0x45u8, 0x53u8, 0x20u8],
        Kw::RecentSp => seq![0x52u8, 0x45u8, 0x43u8, 0x45u8, 0x4eu8, 0x54u8, 0x20u8],
        Kw::NoInferiors => seq![0x5cu8, 0x4eu8, 0x6fu8, 0x69u8, 0x6eu8, 0x66u8, 0x65u8, 0x72u8, 0x69u8, 0x6fu8, 0x72u8, 0x73u8],
        Kw::NoSelect => seq![0x5cu8, 0x4eu8, 0x6fu8, 0x73u8, 0x65u8, 0x6cu8, 0x65u8, 0x63u8, 0x74u8],
        Kw::Marked => seq![0x5cu8, 0x4du8, 0x61u8, 0x72u8, 0x6bu8, 0x65u8, 0x64u8],
        Kw::Unmarked => seq![0x5cu8, 0x55u8, 0x6eu8, 0x6du8, 0x61u8, 0x72u8, 0x6bu8, 0x65u8, 0x64u8],
        Kw::All => seq![0x5cu8, 0x41u8, 0x6cu8, 0x6cu8],
        Kw::Archive => seq![0x5cu8, 0x41u8, 0x72u8, 0x63u8, 0x68u8, 0x69u8, 0x76u8, 0x65u8],
        Kw::Drafts => seq![0x5cu8, 0x44u8, 0x72u8, 0x61u8, 0x66u8, 0x74u8, 0x73u8],
        Kw::Flagged => seq![0x5cu8, 0x46u8, 0x6cu8, 0x61u8, 0x67u8, 0x67u8, 0x65u8, 0x64u8],
        Kw::Junk => seq![0x5cu8, 0x4au8, 0x75u8, 0x6eu8, 0x6bu8],
        Kw::Sent => seq![0x5cu8, 0x53u8, 0x65u8, 0x6eu8, 0x74u8],
        Kw::Trash => seq![0x5cu8, 0x54u8, 0x72u8, 0x61u8, 0x73u8, 0x68u8],
        Kw::Body => seq![0x42u8, 0x4fu8, 0x44u8, 0x59u8],
        Kw::BodyStructureSp => seq![0x42u8, 0x4fu8, 0x44u8, 0x59u8, 0x53u8, 0x54u8, 0x52u8, 0x55u8, 0x43u8, 0x54u8, 0x55u8, 0x52u8, 0x45u8, 0x20u8],
        Kw::EnvelopeSp => seq![0x45u8, 0x4eu8, 0x56u8, 0x45u8, 0x4cu8, 0x4fu8, 0x50u8, 0x45u8, 0x20u8],
        Kw::InternalDateSp => seq![0x49u8, 0x4eu8, 0x54u8, 0x45u8, 0x52u8, 0x4eu8, 0x41u8, 0x4cu8, 0x44u8, 0x41u8, 0x54u8, 0x45u8, 0x20u8],
        Kw::ModSeqSp => seq![0x4du8, 0x4fu8, 0x44u8, 0x53u8, 0x45u8, 0x51u8, 0x20u8],
        Kw::Rfc822Sp => seq![0x52u8, 0x46u8, 0x43u8, 0x38u8, 0x32u8, 0x32u8, 0x20u8],
        Kw::Rfc822HeaderSp => seq![0x52u8, 0x46u8, 0x43u8, 0x38u8, 0x32u8, 0x32u8, 0x2eu8, 0x48u8, 0x45u8, 0x41u8, 0x44u8, 0x45u8, 0x52u8, 0x20u8],
        Kw::Rfc822SizeSp => seq![0x52u8, 0x46u8, 0x43u8, 0x38u8, 0x32u8, 0x32u8, 0x2eu8, 0x53u8, 0x49u8, 0x5au8, 0x45u8, 0x20u8],
        Kw::Rfc822TextSp => seq![0x52u8, 0x46u8, 0x43u8, 0x38u8, 0x32u8, 0x32u8, 0x2eu8, 0x54u8, 0x45u8, 0x58u8, 0x54u8, 0x20u8],
        Kw::UidSp => seq![0x55u8, 0x49u8, 0x44u8, 0x20u8],
        Kw::SpFetchSp => seq![0x20u8, 0x46u8, 0x45u8, 0x54u8, 0x43u8, 0x48u8, 0x20u8],
        Kw::SpExpunge => seq![0x20u8, 0x45u8, 0x58u8, 0x50u8, 0x55u8, 0x4eu8, 0x47u8, 0x45u8],
        Kw::HeaderFields => seq![0x48u8, 0x45u8, 0x41u8, 0x44u8, 0x45u8, 0x52u8, 0x2eu8, 0x46u8, 0x49u8, 0x45u8, 0x4cu8, 0x44u8, 0x53u8],
        Kw::DotNot => seq![0x2eu8, 0x4eu8, 0x4fu8, 0x54u8],
        Kw::Header => seq![0x48u8, 0x45u8, 0x41u8, 0x44u8, 0x45u8, 0x52u8],
        Kw::Text => seq![0x54u8, 0x45u8, 0x58u8, 0x54u8],
        Kw::Mime => seq![0x4du8, 0x49u8, 0x4du8, 0x45u8],
        Kw::Enabled => seq![0x45u8, 0x4eu8, 0x41u8, 0x42u8, 0x4cu8, 0x45u8, 0x44u8],
        Kw::VanishedSp => seq![0x56u8, 0x41u8, 0x4eu8, 0x49u8, 0x53u8, 0x48u8, 0x45u8, 0x44u8, 0x20u8],
        Kw::EarlierSp => seq![0x28u8, 0x45u8, 0x41u8, 0x52u8, 0x4cu8, 0x49u8, 0x45u8, 0x52u8, 0x29u8, 0x20u8],
        Kw::QuotaKw => seq![0x51u8, 0x55u8, 0x4fu8, 0x54u8, 0x41u8],
        Kw::QuotaRootKw => seq![0x51u8, 0x55u8, 0x4fu8, 0x54u8, 0x41u8, 0x52u8, 0x4fu8, 0x4fu8, 0x54u8],
        Kw::Storage => seq![0x53u8, 0x54u8, 0x4fu8, 0x52u8, 0x41u8, 0x47u8, 0x45u8],
        Kw::Message => seq![0x4du8, 0x45u8, 0x53u8, 0x53u8, 0x41u8, 0x47u8, 0x45u8],
        Kw::IdKw => seq![0x49u8, 0x44u8],
        Kw::AclKw => seq![0x41u8, 0x43u8, 0x4cu8],
        Kw::ListRightsKw => seq![0x4cu8, 0x49u8, 0x53u8, 0x54u8, 0x52u8, 0x49u8, 0x47u8, 0x48u8, 0x54u8, 0x53u8],
        Kw::MyRightsKw => seq![0x4du8, 0x59u8, 0x52u8, 0x49u8, 0x47u8, 0x48u8, 0x54u8, 0x53u8],
        Kw::MetadataSp => seq![0x4du8, 0x45u8, 0x54u8, 0x41u8, 0x44u8, 0x41u8, 0x54u8, 0x41u8, 0x20u8],
        Kw::QText => seq![0x22u8, 0x54u8, 0x45u8, 0x58u8, 0x54u8, 0x22u8],
        Kw::QMessageRfc822 => seq![0x22u8, 0x4du8, 0x45u8, 0x53u8, 0x53u8, 0x41u8, 0x47u8, 0x45u8, 0x22u8, 0x20u8, 0x22u8, 0x52u8, 0x46u8, 0x43u8, 0x38u8, 0x32u8, 0x32u8, 0x22u8],
        Kw::SevenBit => seq![0x37u8, 0x42u8, 0x49u8, 0x54u8],
        Kw::EightBit => seq![0x38u8, 0x42u8, 0x49u8, 0x54u8],
        Kw::Binary => seq![0x42u8, 0x49u8, 0x4eu8, 0x41u8, 0x52u8, 0x59u8],
        Kw::Base64 => seq![0x42u8, 0x41u8, 0x53u8, 0x45u8, 0x36u8, 0x34u8],
        Kw::QuotedPrintable => seq![0x51u8, 0x55u8, 0x4fu8, 0x54u8, 0x45u8, 0x44u8, 0x2du8, 0x50u8, 0x52u8, 0x49u8, 0x4eu8, 0x54u8, 0x41u8, 0x42u8, 0x4cu8, 0x45u8],
        Kw::Dquote => seq![0x22u8],
        Kw::Inbox => seq![0x49u8, 0x4eu8, 0x42u8, 0x4fu8, 0x58u8],
        Kw::Private => seq![0x2fu8, 0x70u8, 0x72u8, 0x69u8, 0x76u8, 0x61u8, 0x74u8, 0x65u8],
        Kw::Shared => seq![0x2fu8, 0x73u8, 0x68u8, 0x61u8, 0x72u8, 0x65u8, 0x64u8],
        Kw::Admin => seq![0x2fu8, 0x61u8, 0x64u8, 0x6du8, 0x69u8, 0x6eu8],
        Kw::Comment => seq![0x2fu8, 0x63u8, 0x6fu8, 0x6du8, 0x6du8, 0x65u8, 0x6eu8, 0x74u8],
        Kw::Vendor => seq![0x2fu8, 0x76u8, 0x65u8, 0x6eu8, 0x64u8, 0x6fu8, 0x72u8],
    }
}

pub fn kw(k: Kw) -> (r: &'static [u8])
    ensures
        r@ == kw_bytes(k),
{
    match k {
        Kw::LBrace => &[0x7b],
        Kw::RBrace => &[0x7d],
        Kw::Crlf => &[0x0d, 0x0a],
        Kw::Nil => &[0x4e, 0x49, 0x4c],
        Kw::Colon => &[0x3a],
        Kw::Comma => &[0x2c],
        Kw::Sp => &[0x20],
        Kw::LParen => &[0x28],
        Kw::RParen => &[0x29],
        Kw::LBracket => &[0x5b],
        Kw::RBracket => &[0x5d],
        Kw::Lt => &[0x3c],
        Kw::Gt => &[0x3e],
        Kw::Dot => &[0x2e],
        Kw::Plus => &[0x2b],
        Kw::StarSp => &[0x2a, 0x20],
        Kw::Backslash => &[0x5c],
        Kw::BackslashStar => &[0x5c, 0x2a],
        Kw::OkKw => &[0x4f, 0x4b],
        Kw::No => &[0x4e, 0x4f],
        Kw::Bad => &[0x42, 0x41, 0x44],
        Kw::PreAuth => &[0x50, 0x52, 0x45, 0x41, 0x55, 0x54, 0x48],
        Kw::Bye => &[0x42, 0x59, 0x45],
        Kw::Alert => &[0x41, 0x4c, 0x45, 0x52, 0x54],
        Kw::BadCharset => &[0x42, 0x41, 0x44, 0x43, 0x48, 0x41, 0x52, 0x53, 0x45, 0x54],
        Kw::Capability => &[0x43, 0x41, 0x50, 0x41, 0x42, 0x49, 0x4c, 0x49, 0x54, 0x59],
        Kw::ParseKw => &[0x50, 0x41, 0x52, 0x53, 0x45],
        Kw::PermanentFlags => &[0x50, 0x45, 0x52, 0x4d, 0x41, 0x4e, 0x45, 0x4e, 0x54, 0x46, 0x4c, 0x41, 0x47, 0x53, 0x20],
        Kw::ReadOnly => &[0x52, 0x45, 0x41, 0x44, 0x2d, 0x4f, 0x4e, 0x4c, 0x59],
        Kw::ReadWrite => &[0x52, 0x45, 0x41, 0x44, 0x2d, 0x57, 0x52, 0x49, 0x54, 0x45],
        Kw::TryCreate => &[0x54, 0x52, 0x59, 0x43, 0x52, 0x45, 0x41, 0x54, 0x45],
        Kw::UidValiditySp => &[0x55, 0x49, 0x44, 0x56, 0x41, 0x4c, 0x49, 0x44, 0x49, 0x54, 0x59, 0x20],
        Kw::UidNextSp => &[0x55, 0x49, 0x44, 0x4e, 0x45, 0x58, 0x54, 0x20],
        Kw::UnseenSp => &[0x55, 0x4e, 0x53, 0x45, 0x45, 0x4e, 0x20],
        Kw::HighestModSeqSp => &[0x48, 0x49, 0x47, 0x48, 0x45, 0x53, 0x54, 0x4d, 0x4f, 0x44, 0x53, 0x45, 0x51, 0x20],
        Kw::AppendUidSp => &[0x41, 0x50, 0x50, 0x45, 0x4e, 0x44, 0x55, 0x49, 0x44, 0x20],
        Kw::CopyUidSp => &[0x43, 0x4f, 0x50, 0x59, 0x55, 0x49, 0x44, 0x20],
        Kw::UidNotSticky => &[0x55, 0x49, 0x44, 0x4e, 0x4f, 0x54, 0x53, 0x54, 0x49, 0x43, 0x4b, 0x59],
        Kw::MetadataLongEntries => &[0x4d, 0x45, 0x54, 0x41, 0x44, 0x41, 0x54, 0x41, 0x20, 0x4c, 0x4f, 0x4e, 0x47, 0x45, 0x4e, 0x54, 0x52, 0x49, 0x45, 0x53, 0x20],
        Kw::MetadataMaxSize => &[0x4d, 0x45, 0x54, 0x41, 0x44, 0x41, 0x54, 0x41, 0x20, 0x4d, 0x41, 0x58, 0x53, 0x49, 0x5a, 0x45, 0x20],
        Kw::MetadataTooMany => &[0x4d, 0x45, 0x54, 0x41, 0x44, 0x41, 0x54, 0x41, 0x20, 0x54, 0x4f, 0x4f, 0x4d, 0x41, 0x4e, 0x59],
        Kw::MetadataNoPrivate => &[0x4d, 0x45, 0x54, 0x41, 0x44, 0x41, 0x54, 0x41, 0x20, 0x4e, 0x4f, 0x50, 0x52, 0x49, 0x56, 0x41, 0x54, 0x45],
        Kw::Imap4rev1 => &[0x49, 0x4d, 0x41, 0x50, 0x34, 0x72, 0x65, 0x76, 0x31],
        Kw::AuthEq => &[0x41, 0x55, 0x54, 0x48, 0x3d],
        Kw::FlagsSp => &[0x46, 0x4c, 0x41, 0x47, 0x53, 0x20],
        Kw::SpExists => &[0x20, 0x45, 0x58, 0x49, 0x53, 0x54, 0x53],
        Kw::ListSp => &[0x4c, 0x49, 0x53, 0x54, 0x20],
        Kw::LsubSp => &[0x4c, 0x53, 0x55, 0x42, 0x20],
        Kw::StatusSp => &[0x53, 0x54, 0x41, 0x54, 0x55, 0x53, 0x20],
        Kw::SpRecent => &[0x20, 0x52, 0x45, 0x43, 0x45, 0x4e, 0x54],
        Kw::Search => &[0x53, 0x45, 0x41, 0x52, 0x43, 0x48],
        Kw::Sort => &[0x53, 0x4f, 0x52, 0x54],
        Kw::GmLabelsSp => &[0x58, 0x2d, 0x47, 0x4d, 0x2d, 0x4c, 0x41, 0x42, 0x45, 0x4c, 0x53, 0x20],
        Kw::GmMsgIdSp => &[0x58, 0x2d, 0x47, 0x4d, 0x2d, 0x4d, 0x53, 0x47, 0x49, 0x44, 0x20],
        Kw::GmThrIdSp => &[0x58, 0x2d, 0x47, 0x4d, 0x2d, 0x54, 0x48, 0x52, 0x49, 0x44, 0x20],
        Kw::MessagesSp => &[0x4d, 0x45, 0x53, 0x53, 0x41, 0x47, 0x45, 0x53, 0x20],
        Kw::RecentSp => &[0x52, 0x45, 0x43, 0x45, 0x4e, 0x54, 0x20],
        Kw::NoInferiors => &[0x5c, 0x4e, 0x6f, 0x69, 0x6e, 0x66, 0x65, 0x72, 0x69, 0x6f, 0x72, 0x73],
        Kw::NoSelect => &[0x5c, 0x4e, 0x6f, 0x73, 0x65, 0x6c, 0x65, 0x63, 0x74],
        Kw::Marked => &[0x5c, 0x4d, 0x61, 0x72, 0x6b, 0x65, 0x64],
        Kw::Unmarked => &[0x5c, 0x55, 0x6e, 0x6d, 0x61, 0x72, 0x6b, 0x65, 0x64],
        Kw::All => &[0x5c, 0x41, 0x6c, 0x6c],
        Kw::Archive => &[0x5c, 0x41, 0x72, 0x63, 0x68, 0x69, 0x76, 0x65],
        Kw::Drafts => &[0x5c, 0x44, 0x72, 0x61, 0x66, 0x74, 0x73],
        Kw::Flagged => &[0x5c, 0x46, 0x6c, 0x61, 0x67, 0x67, 0x65, 0x64],
        Kw::Junk => &[0x5c, 0x4a, 0x75, 0x6e, 0x6b],
        Kw::Sent => &[0x5c, 0x53, 0x65, 0x6e, 0x74],
        Kw::Trash => &[0x5c, 0x54, 0x72, 0x61, 0x73, 0x68],
        Kw::Body => &[0x42, 0x4f, 0x44, 0x59],
        Kw::BodyStructureSp => &[0x42, 0x4f, 0x44, 0x59, 0x53, 0x54, 0x52, 0x55, 0x43, 0x54, 0x55, 0x52, 0x45, 0x20],
        Kw::EnvelopeSp => &[0x45, 0x4e, 0x56, 0x45, 0x4c, 0x4f, 0x50, 0x45, 0x20],
        Kw::InternalDateSp => &[0x49, 0x4e, 0x54, 0x45, 0x52, 0x4e, 0x41, 0x4c, 0x44, 0x41, 0x54, 0x45, 0x20],
        Kw::ModSeqSp => &[0x4d, 0x4f, 0x44, 0x53, 0x45, 0x51, 0x20],
        Kw::Rfc822Sp => &[0x52, 0x46, 0x43, 0x38, 0x32, 0x32, 0x20],
        Kw::Rfc822HeaderSp => &[0x52, 0x46, 0x43, 0x38, 0x32, 0x32, 0x2e, 0x48, 0x45, 0x41, 0x44, 0x45, 0x52, 0x20],
        Kw::Rfc822SizeSp => &[0x52, 0x46, 0x43, 0x38, 0x32, 0x32, 0x2e, 0x53, 0x49, 0x5a, 0x45, 0x20],
        Kw::Rfc822TextSp => &[0x52, 0x46, 0x43, 0x38, 0x32, 0x32, 0x2e, 0x54, 0x45, 0x58, 0x54, 0x20],
        Kw::UidSp => &[0x55, 0x49, 0x44, 0x20],
        Kw::SpFetchSp => &[0x20, 0x46, 0x45, 0x54, 0x43, 0x48, 0x20],
        Kw::SpExpunge => &[0x20, 0x45, 0x58, 0x50, 0x55, 0x4e, 0x47, 0x45],
        Kw::HeaderFields => &[0x48, 0x45, 0x41, 0x44, 0x45, 0x52, 0x2e, 0x46, 0x49, 0x45, 0x4c, 0x44, 0x53],
        Kw::DotNot => &[0x2e, 0x4e, 0x4f, 0x54],
        Kw::Header => &[0x48, 0x45, 0x41, 0x44, 0x45, 0x52],
        Kw::Text => &[0x54, 0x45, 0x58, 0x54],
        Kw::Mime => &[0x4d, 0x49, 0x4d, 0x45],
        Kw::Enabled => &[0x45, 0x4e, 0x41, 0x42, 0x4c, 0x45, 0x44],
        Kw::VanishedSp => &[0x56, 0x41, 0x4e, 0x49, 0x53, 0x48, 0x45, 0x44, 0x20],
        Kw::EarlierSp => &[0x28, 0x45, 0x41, 0x52, 0x4c, 0x49, 0x45, 0x52, 0x29, 0x20],
        Kw::QuotaKw => &[0x51, 0x55, 0x4f, 0x54, 0x41],
        Kw::QuotaRootKw => &[0x51, 0x55, 0x4f, 0x54, 0x41, 0x52, 0x4f, 0x4f, 0x54],
        Kw::Storage => &[0x53, 0x54, 0x4f, 0x52, 0x41, 0x47, 0x45],
        Kw::Message => &[0x4d, 0x45, 0x53, 0x53, 0x41, 0x47, 0x45],
        Kw::IdKw => &[0x49, 0x44],
        Kw::AclKw => &[0x41, 0x43, 0x4c],
        Kw::ListRightsKw => &[0x4c, 0x49, 0x53, 0x54, 0x52, 0x49, 0x47, 0x48, 0x54, 0x53],
        Kw::MyRightsKw => &[0x4d, 0x59, 0x52, 0x49, 0x47, 0x48, 0x54, 0x53],
        Kw::MetadataSp => &[0x4d, 0x45, 0x54, 0x41, 0x44, 0x41, 0x54, 0x41, 0x20],
        Kw::QText => &[0x22, 0x54, 0x45, 0x58, 0x54, 0x22],
        Kw::QMessageRfc822 => &[0x22, 0x4d, 0x45, 0x53, 0x53, 0x41, 0x47, 0x45, 0x22, 0x20, 0x22, 0x52, 0x46, 0x43, 0x38, 0x32, 0x32, 0x22],
        Kw::SevenBit => &[0x37, 0x42, 0x49, 0x54],
        Kw::EightBit => &[0x38, 0x42, 0x49, 0x54],
        Kw::Binary => &[0x42, 0x49, 0x4e, 0x41, 0x52, 0x59],
        Kw::Base64 => &[0x42, 0x41, 0x53, 0x45, 0x36, 0x34],
        Kw::QuotedPrintable => &[0x51, 0x55, 0x4f, 0x54, 0x45, 0x44, 0x2d, 0x50, 0x52, 0x49, 0x4e, 0x54, 0x41, 0x42, 0x4c, 0x45],
        Kw::Dquote => &[0x22],
        Kw::Inbox => &[0x49, 0x4e, 0x42, 0x4f, 0x58],
        Kw::Private => &[0x2f, 0x70, 0x72, 0x69, 0x76, 0x61, 0x74, 0x65],
        Kw::Shared => &[0x2f, 0x73, 0x68, 0x61, 0x72, 0x65, 0x64],
        Kw::Admin => &[0x2f, 0x61, 0x64, 0x6d, 0x69, 0x6e],
        Kw::Comment => &[0x2f, 0x63, 0x6f, 0x6d, 0x6d, 0x65, 0x6e, 0x74],
        Kw::Vendor => &[0x2f, 0x76, 0x65, 0x6e, 0x64, 0x6f, 0x72],
    }
}

/// The keyword `k` at `i`.
pub open spec fn spec_kw(s: Seq<u8>, i: int, k: Kw, ci: bool) -> SPos {
    spec_tag(s, i, kw_bytes(k), ci)
}

pub fn tag_kw(s: &[u8], i: usize, k: Kw, ci: bool) -> (r: PPos)
    requires
        i <= s@.len(),
    ensures
        pv(r) == spec_kw(s@, i as int, k, ci),
        wfp(r, s@, i as int),
{
    tag(s, i, kw(k), ci)
}

/// A single given byte.
pub open spec fn spec_byte(s: Seq<u8>, i: int, b: u8) -> SPos {
    if i >= s.len() {
        Err(incomplete(1))
    } else if s[i] != b {
        Err(ParseError::Error)
    } else {
        Ok(i + 1)
    }
}

pub fn byte(s: &[u8], i: usize, b: u8) -> (r: PPos)
    requires
        i <= s@.len(),
    ensures
        pv(r) == spec_byte(s@, i as int, b),
        wfp(r, s@, i as int),
{
    if i >= s.len() {
        Err(incomplete_of(1))
    } else if s[i] != b {
        Err(ParseError::Error)
    } else {
        Ok(i + 1)
    }
}

// ----- small combinators -----

/// `a`, or `b` where `a` does not match; running out of input is final.
pub open spec fn s_or<T>(a: SRes<T>, b: SRes<T>) -> SRes<T> {
    match a {
        Err(ParseError::Error) => b,
        _ => a,
    }
}

/// The value of a successful result, mapped by `f`.
pub open spec fn s_map<A, B>(r: SRes<A>, f: spec_fn(A) -> B) -> SRes<B> {
    match r {
        Ok((e, v)) => Ok((e, f(v))),
        Err(x) => Err(x),
    }
}

/// The keyword `k` at `i`, standing for the value `v`.
pub open spec fn s_kw_val<T>(s: Seq<u8>, i: int, k: Kw, ci: bool, v: T) -> SRes<T> {
    match spec_kw(s, i, k, ci) {
        Ok(j) => Ok((j, v)),
        Err(e) => Err(e),
    }
}

pub fn kw_val<T: DeepView>(s: &[u8], i: usize, k: Kw, ci: bool, v: T) -> (r: PRes<T>)
    requires
        i <= s@.len(),
    ensures
        dv(r) == s_kw_val(s@, i as int, k, ci, v.deep_view()),
        wf(r, s@, i as int),
{
    match tag_kw(s, i, k, ci) {
        Ok(j) => Ok((j, v)),
        Err(e) => Err(e),
    }
}

/// Equal bytes, ignoring ASCII case.
pub open spec fn spec_eq_ci(a: Seq<u8>, b: Seq<u8>) -> bool {
    a.len() == b.len() && forall|k: int| 0 <= k < a.len() ==> lower(a[k]) == lower(b[k])
}

pub fn eq_ci(a: &[u8], b: &[u8]) -> (r: bool)
    ensures
        r == spec_eq_ci(a@, b@),
{
    if a.len() != b.len() {
        return false;
    }
    let mut k: usize = 0;
    while k < a.len()
        invariant
            a@.len() == b@.len(),
            k <= a@.len(),
            forall|q: int| 0 <= q < k ==> lower(a@[q]) == lower(b@[q]),
        decreases a@.len() - k,
    {
        if lower_byte(a[k]) != lower_byte(b[k]) {
            return false;
        }
        k = k + 1;
    }
    true
}

/// The public form of a parse at position 0: the rest of the input and the value.
pub fn finish<T: DeepView>(i: &[u8], r: PRes<T>) -> (q: IResult<'_, T>)
    requires
        wf(r, i@, 0),
    ensures
        iresult_is(i@, q, dv(r)),
{
    match r {
        Ok((e, v)) => Ok((vstd::slice::slice_subrange(i, e, i.len()), v)),
        Err(x) => Err(x),
    }
}

/// A keyword on complete input: running out of input does not match.
pub open spec fn spec_kw_c(s: Seq<u8>, i: int, k: Kw, ci: bool) -> SPos {
    match spec_kw(s, i, k, ci) {
        Err(ParseError::Incomplete(_)) => Err(ParseError::Error),
        r => r,
    }
}

pub fn tag_kw_c(s: &[u8], i: usize, k: Kw, ci: bool) -> (r: PPos)
    requires
        i <= s@.len(),
    ensures
        pv(r) == spec_kw_c(s@, i as int, k, ci),
        wfp(r, s@, i as int),
{
    match tag_kw(s, i, k, ci) {
        Err(ParseError::Incomplete(_)) => Err(ParseError::Error),
        r => r,
    }
}

/// space0 on complete input: any run of spaces.
pub open spec fn spec_space0_c(s: Seq<u8>, i: int) -> SPos {
    Ok(scan_end(s, i, Class::Space))
}

pub fn space0_c(s: &[u8], i: usize) -> (r: PPos)
    requires
        i <= s@.len(),
    ensures
        pv(r) == spec_space0_c(s@, i as int),
        wfp(r, s@, i as int),
{
    Ok(scan(s, i, Class::Space))
}

/// space1 on complete input: a nonempty run of spaces.
pub open spec fn spec_space1_c(s: Seq<u8>, i: int) -> SPos {
    spec_take_while1_complete(s, i, Class::Space)
}

pub fn space1_c(s: &[u8], i: usize) -> (r: PPos)
    requires
        i <= s@.len(),
    ensures
        pv(r) == spec_space1_c(s@, i as int),
        wfp(r, s@, i as int),
        r matches Ok(j) ==> j > i,
{
    let r = take_while1_complete(s, i, Class::Space);
    proof {
        if r is Ok {
            lemma_scan_end(s@, i as int, Class::Space);
        }
    }
    r
}

/// space1, streaming: a nonempty run of spaces that does not reach the end of the input.
pub open spec fn spec_space1(s: Seq<u8>, i: int) -> SPos {
    spec_take_while1(s, i, Class::Space)
}

pub fn space1(s: &[u8], i: usize) -> (r: PPos)
    requires
        i <= s@.len(),
    ensures
        pv(r) == spec_space1(s@, i as int),
        wfp(r, s@, i as int),
        r matches Ok(j) ==> j > i,
{
    take_while1(s, i, Class::Space)
}

/// `t` stands at position `l` of `b`.
pub open spec fn starts_at(b: Seq<u8>, l: int, t: Seq<u8>) -> bool {
    0 <= l && l + t.len() <= b.len() && b.subrange(l, l + t.len()) == t
}

pub fn starts_at_exec(b: &[u8], l: usize, t: &[u8]) -> (r: bool)
    ensures
        r == starts_at(b@, l as int, t@),
{
    if l > b.len() || t.len() > b.len() - l {
        return false;
    }
    let mut k: usize = 0;
    while k < t.len()
        invariant
            l + t@.len() <= b@.len(),
            b@.len() == b.len(),
            k <= t@.len(),
            forall|q: int| 0 <= q < k ==> b@[l + q] == t@[q],
        decreases t@.len() - k,
    {
        if b[l + k] != t[k] {
            assert(b@.subrange(l as int, l + t@.len())[k as int] != t@[k as int]);
            return false;
        }
        k = k + 1;
    }
    assert(b@.subrange(l as int, l + t@.len()) =~= t@);
    true
}

/// An optional keyword: the position after it, or `i` where something else stands.
pub open spec fn spec_opt_kw(s: Seq<u8>, i: int, k: Kw, ci: bool) -> SPos {
    match spec_kw(s, i, k, ci) {
        Err(ParseError::Error) => Ok(i),
        r => r,
    }
}

pub fn opt_kw(s: &[u8], i: usize, k: Kw, ci: bool) -> (r: PPos)
    requires
        i <= s@.len(),
    ensures
        pv(r) == spec_opt_kw(s@, i as int, k, ci),
        wfp(r, s@, i as int),
{
    match tag_kw(s, i, k, ci) {
        Err(ParseError::Error) => Ok(i),
        r => r,
    }
}

} // verus!
