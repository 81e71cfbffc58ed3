//! Building the commands that a client sends (RFC 3501 section 6): the arguments of
//! each command, and the state that a successful command leads to.

use vstd::prelude::*;
use vstd::string::{StrSliceExecFns, StringExecFns};
use vstd::utf8::encode_utf8;
use crate::types::{AttrMacro, Attribute, State};
use crate::round_trip::{ascii_bytes, lemma_encode_ascii};

verus! {

// ----- numbers and quoted strings -----

/// The decimal digits of `n`, most significant first.
pub open spec fn spec_decimal(n: nat) -> Seq<u8>
    decreases n,
{
    if n < 10 {
        seq![(48 + n) as u8]
    } else {
        spec_decimal(n / 10).push((48 + n % 10) as u8)
    }
}

/// The decimal digits of `n`.
pub fn decimal(n: u64) -> (r: Vec<u8>)
    ensures
        r@ == spec_decimal(n as nat),
    decreases n,
{
    if n < 10 {
        let mut v: Vec<u8> = Vec::new();
        v.push((48 + n) as u8);
        v
    } else {
        let mut v = decimal(n / 10);
        v.push((48 + n % 10) as u8);
        v
    }
}

/// A character as a quoted string holds it: quoted-specials take a backslash.
pub open spec fn spec_escape(c: char) -> Seq<char> {
    if c == '\\' || c == '"' {
        seq!['\\', c]
    } else {
        seq![c]
    }
}

/// The text of a quoted string that stands for `t`, without the quotes.
pub open spec fn spec_quote(t: Seq<char>) -> Seq<char>
    decreases t.len(),
{
    if t.len() == 0 {
        Seq::empty()
    } else {
        spec_quote(t.drop_last()) + spec_escape(t.last())
    }
}

/// TEXT-CHAR (RFC 3501): a 7-bit character other than NUL, CR and LF. These are the
/// characters that a quoted string can hold.
pub open spec fn is_text_char(c: char) -> bool {
    0x01 <= (c as u32) <= 0x7f && (c as u32) != 0x0d && (c as u32) != 0x0a
}

/// Every character of `t` is a TEXT-CHAR.
pub open spec fn is_text(t: Seq<char>) -> bool {
    forall|k: int| 0 <= k < t.len() ==> is_text_char(#[trigger] t[k])
}

/// The position of the first character of `t` from `k` on that is no TEXT-CHAR, or the
/// length of `t` where there is none.
pub open spec fn non_text_from(t: Seq<char>, k: int) -> int
    decreases t.len() - k,
{
    if k < 0 || k >= t.len() {
        t.len() as int
    } else if !is_text_char(t[k]) {
        k
    } else {
        non_text_from(t, k + 1)
    }
}

/// `t` holds a CR or an LF.
pub open spec fn has_cr_or_lf(t: Seq<char>) -> bool {
    exists|k: int| 0 <= k < t.len() && ((t[k] as u32) == 0x0d || (t[k] as u32) == 0x0a)
}

/// The error of a quoted string for `t`: the CR and LF error wherever `t` holds one of
/// them, else the error for the other characters that are no TEXT-CHAR.
pub open spec fn quote_error(t: Seq<char>) -> Seq<char> {
    if has_cr_or_lf(t) {
        "CR and LF not allowed in quoted strings"@
    } else {
        "NUL and 8-bit characters not allowed in quoted strings"@
    }
}

fn contains_cr_or_lf(s: &str) -> (r: bool)
    ensures
        r == has_cr_or_lf(s@),
{
    let n = s.unicode_len();
    let mut k: usize = 0;
    while k < n
        invariant
            n == s@.len(),
            k <= n,
            forall|q: int| 0 <= q < k ==> (s@[q] as u32) != 0x0d && (s@[q] as u32) != 0x0a,
        decreases n - k,
    {
        let c = s.get_char(k) as u32;
        if c == 0x0d || c == 0x0a {
            return true;
        }
        k = k + 1;
    }
    false
}

/// The first position in `s` that holds no TEXT-CHAR, or the length of `s`.
fn first_non_text(s: &str) -> (r: usize)
    ensures
        r == non_text_from(s@, 0),
        r <= s@.len(),
        r == s@.len() <==> is_text(s@),
{
    let n = s.unicode_len();
    let mut k: usize = 0;
    while k < n
        invariant
            n == s@.len(),
            k <= n,
            non_text_from(s@, 0) == non_text_from(s@, k as int),
            forall|q: int| 0 <= q < k ==> is_text_char(#[trigger] s@[q]),
        decreases n - k,
    {
        let c = s.get_char(k) as u32;
        if c < 0x01 || c > 0x7f || c == 0x0d || c == 0x0a {
            return k;
        }
        k = k + 1;
    }
    k
}

fn escape_quoted(s: &str) -> (q: String)
    ensures
        q@ == spec_quote(s@),
{
    let n = s.unicode_len();
    let mut out = String::new();
    let mut k: usize = 0;
    proof {
        assert(s@.take(0) =~= Seq::<char>::empty());
    }
    while k < n
        invariant
            n == s@.len(),
            k <= n,
            out@ == spec_quote(s@.take(k as int)),
        decreases n - k,
    {
        let c = s.get_char(k);
        let ghost before = out@;
        if c == '\\' || c == '"' {
            out.append("\\");
            proof {
                reveal_strlit("\\");
            }
        }
        out.append(s.substring_char(k, k + 1));
        proof {
            assert(s@.take(k + 1).drop_last() =~= s@.take(k as int));
            assert(s@.subrange(k as int, k + 1) =~= seq![c]);
            assert(out@ =~= before + spec_escape(c));
        }
        k = k + 1;
    }
    proof {
        assert(s@.take(n as int) =~= s@);
    }
    out
}

/// The text of a quoted string that stands for `s`, without the surrounding quotes; an
/// error where `s` holds a character that is no TEXT-CHAR: the CR and LF error where it
/// holds one of them, else the error for NUL and 8-bit characters.
pub fn quoted_string(s: &str) -> (r: Result<String, &'static str>)
    ensures
        r is Ok <==> is_text(s@),
        r matches Ok(q) ==> q@ == spec_quote(s@),
        r matches Err(e) ==> e@ == quote_error(s@),
{
    if contains_cr_or_lf(s) {
        return Err("CR and LF not allowed in quoted strings");
    }
    let k = first_non_text(s);
    if k < s.unicode_len() {
        Err("NUL and 8-bit characters not allowed in quoted strings")
    } else {
        Ok(escape_quoted(s))
    }
}

/// The arguments of a command and the state it leads to.
pub struct Command {
    args: Vec<u8>,
    next_state: Option<State>,
}

impl View for Command {
    type V = (Seq<u8>, Option<State>);

    closed spec fn view(&self) -> (Seq<u8>, Option<State>) {
        (self.args@, self.next_state)
    }
}

impl Command {
    /// A command of these arguments, leading to `next_state`.
    pub(crate) fn from_parts(args: Vec<u8>, next_state: Option<State>) -> (r: Command)
        ensures
            r@ == (args@, next_state),
    {
        Command { args, next_state }
    }

    /// The arguments and the state that the command leads to.
    pub fn into_parts(self) -> (r: (Vec<u8>, Option<State>))
        ensures
            r.0@ == self@.0,
            r.1 == self@.1,
    {
        let Command { args, next_state } = self;
        (args, next_state)
    }

    /// The arguments and the state that the command leads to.
    pub fn to_parts(self) -> (r: (Vec<u8>, Option<State>))
        ensures
            r.0@ == self@.0,
            r.1 == self@.1,
    {
        self.into_parts()
    }
}

/// The bytes of `t`.
fn text_bytes(t: String) -> (r: Vec<u8>)
    ensures
        r@ == encode_utf8(t@),
{
    vstd::slice::slice_to_vec(t.as_str().as_bytes())
}

/// `head`, the quoted form of `a`, and a closing quote.
pub open spec fn spec_one_quoted(head: Seq<char>, a: Seq<char>) -> Seq<char> {
    head + spec_quote(a) + "\""@
}

/// `head`, the quoted forms of `a` and `b` separated by a space.
pub open spec fn spec_two_quoted(head: Seq<char>, a: Seq<char>, b: Seq<char>) -> Seq<char> {
    head + spec_quote(a) + "\" \""@ + spec_quote(b) + "\""@
}

fn one_quoted(head: &str, a: &str) -> (r: Vec<u8>)
    requires
        is_text(a@),
    ensures
        r@ == encode_utf8(spec_one_quoted(head@, a@)),
{
    let mut t = String::from_str(head);
    t.append(escape_quoted(a).as_str());
    t.append("\"");
    text_bytes(t)
}

fn two_quoted(head: &str, a: &str, b: &str) -> (r: Vec<u8>)
    requires
        is_text(a@),
        is_text(b@),
    ensures
        r@ == encode_utf8(spec_two_quoted(head@, a@, b@)),
{
    let mut t = String::from_str(head);
    t.append(escape_quoted(a).as_str());
    t.append("\" \"");
    t.append(escape_quoted(b).as_str());
    t.append("\"");
    text_bytes(t)
}

pub(crate) fn text_vec(s: &str) -> (r: Vec<u8>)
    ensures
        r@ == encode_utf8(s@),
{
    vstd::slice::slice_to_vec(s.as_bytes())
}

/// Builds commands.
pub struct CommandBuilder {}

impl CommandBuilder {
    pub fn check() -> (r: Command)
        ensures
            r@ == (encode_utf8("CHECK"@), None::<State>),
    {
        Command { args: text_vec("CHECK"), next_state: None }
    }

    pub fn close() -> (r: Command)
        ensures
            r@ == (encode_utf8("CLOSE"@), Some(State::Authenticated)),
    {
        Command { args: text_vec("CLOSE"), next_state: Some(State::Authenticated) }
    }

    pub fn examine(mailbox: &str) -> (r: Command)
        requires
            is_text(mailbox@),
        ensures
            r@ == (
                encode_utf8(spec_one_quoted("EXAMINE \""@, mailbox@)),
                Some(State::Selected),
            ),
    {
        Command { args: one_quoted("EXAMINE \"", mailbox), next_state: Some(State::Selected) }
    }

    pub fn fetch() -> (r: FetchCommandEmpty)
        ensures
            r@ == encode_utf8("FETCH "@),
    {
        FetchCommandEmpty { args: text_vec("FETCH ") }
    }

    pub fn list(reference: &str, glob: &str) -> (r: Command)
        requires
            is_text(reference@),
            is_text(glob@),
        ensures
            r@ == (encode_utf8(spec_two_quoted("LIST \""@, reference@, glob@)), None::<State>),
    {
        Command { args: two_quoted("LIST \"", reference, glob), next_state: None }
    }

    pub fn login(user_name: &str, password: &str) -> (r: Command)
        requires
            is_text(user_name@),
            is_text(password@),
        ensures
            r@ == (
                encode_utf8(spec_two_quoted("LOGIN \""@, user_name@, password@)),
                Some(State::Authenticated),
            ),
    {
        Command {
            args: two_quoted("LOGIN \"", user_name, password),
            next_state: Some(State::Authenticated),
        }
    }

    pub fn select(mailbox: &str) -> (r: Command)
        requires
            is_text(mailbox@),
        ensures
            r@ == (
                encode_utf8(spec_one_quoted("SELECT \""@, mailbox@)),
                Some(State::Selected),
            ),
    {
        Command { args: one_quoted("SELECT \"", mailbox), next_state: Some(State::Selected) }
    }

    pub fn uid_fetch() -> (r: FetchCommandEmpty)
        ensures
            r@ == encode_utf8("UID FETCH "@),
    {
        FetchCommandEmpty { args: text_vec("UID FETCH ") }
    }
}

// ----- FETCH -----

/// A FETCH command before its messages.
pub struct FetchCommandEmpty {
    args: Vec<u8>,
}

impl View for FetchCommandEmpty {
    type V = Seq<u8>;

    closed spec fn view(&self) -> Seq<u8> {
        self.args@
    }
}

/// A FETCH command with its messages so far.
pub struct FetchCommandMessages {
    args: Vec<u8>,
}

impl View for FetchCommandMessages {
    type V = Seq<u8>;

    closed spec fn view(&self) -> Seq<u8> {
        self.args@
    }
}

/// A FETCH command with its attributes so far.
pub struct FetchCommandAttributes {
    args: Vec<u8>,
}

impl View for FetchCommandAttributes {
    type V = Seq<u8>;

    closed spec fn view(&self) -> Seq<u8> {
        self.args@
    }
}

/// A FETCH command with what it fetches.
pub struct FetchCommand {
    args: Vec<u8>,
}

impl View for FetchCommand {
    type V = Seq<u8>;

    closed spec fn view(&self) -> Seq<u8> {
        self.args@
    }
}

/// Appends the bytes of `s`.
pub(crate) fn push_text(args: &mut Vec<u8>, s: &str)
    ensures
        final(args)@ == old(args)@ + encode_utf8(s@),
{
    let mut v = text_vec(s);
    args.append(&mut v);
}

/// Appends the decimal digits of `n`.
fn push_decimal(args: &mut Vec<u8>, n: u64)
    ensures
        final(args)@ == old(args)@ + spec_decimal(n as nat),
{
    let mut v = decimal(n);
    args.append(&mut v);
}

/// The messages of a FETCH command: numbers and ranges, separated by commas.
pub trait FetchBuilderMessages where Self: Sized {
    /// The arguments that the next message is written after.
    spec fn messages_prefix(&self) -> Seq<u8>;

    fn prepare(self) -> (r: FetchCommandMessages)
        ensures
            r@ == self.messages_prefix(),
    ;

    /// One message.
    fn num(self, num: u32) -> (r: FetchCommandMessages)
        ensures
            r@ == self.messages_prefix() + spec_decimal(num as nat),
    {
        let FetchCommandMessages { mut args } = self.prepare();
        push_decimal(&mut args, num as u64);
        FetchCommandMessages { args }
    }

    /// The messages from `start` to `stop`.
    fn range(self, start: u32, stop: u32) -> (r: FetchCommandMessages)
        ensures
            r@ == self.messages_prefix() + spec_decimal(start as nat) + seq![0x3au8]
                + spec_decimal(stop as nat),
    {
        let FetchCommandMessages { mut args } = self.prepare();
        push_decimal(&mut args, start as u64);
        args.push(0x3a);
        push_decimal(&mut args, stop as u64);
        FetchCommandMessages { args }
    }

    /// The messages from `start` on.
    fn all_after(self, start: u32) -> (r: FetchCommandMessages)
        ensures
            r@ == self.messages_prefix() + spec_decimal(start as nat) + encode_utf8(":*"@),
    {
        let FetchCommandMessages { mut args } = self.prepare();
        push_decimal(&mut args, start as u64);
        push_text(&mut args, ":*");
        FetchCommandMessages { args }
    }
}

impl FetchBuilderMessages for FetchCommandEmpty {
    open spec fn messages_prefix(&self) -> Seq<u8> {
        self@
    }

    fn prepare(self) -> (r: FetchCommandMessages) {
        FetchCommandMessages { args: self.args }
    }
}

impl FetchBuilderMessages for FetchCommandMessages {
    open spec fn messages_prefix(&self) -> Seq<u8> {
        self@.push(0x2c)
    }

    fn prepare(self) -> (r: FetchCommandMessages) {
        let FetchCommandMessages { mut args } = self;
        args.push(0x2c);
        FetchCommandMessages { args }
    }
}

/// The name of an attribute macro.
pub open spec fn spec_macro_name(named: AttrMacro) -> Seq<char> {
    match named {
        AttrMacro::All => "ALL"@,
        AttrMacro::Fast => "FAST"@,
        AttrMacro::Full => "FULL"@,
    }
}

fn macro_name(named: AttrMacro) -> (r: &'static str)
    ensures
        r@ == spec_macro_name(named),
{
    match named {
        AttrMacro::All => "ALL",
        AttrMacro::Fast => "FAST",
        AttrMacro::Full => "FULL",
    }
}

impl FetchCommandMessages {
    /// Fetches what the macro `named` stands for.
    pub fn attr_macro(self, named: AttrMacro) -> (r: FetchCommand)
        ensures
            r@ == self@.push(0x20) + encode_utf8(spec_macro_name(named)),
    {
        let FetchCommandMessages { mut args } = self;
        args.push(0x20);
        push_text(&mut args, macro_name(named));
        FetchCommand { args }
    }
}

/// The name of a fetch attribute.
pub open spec fn spec_attr_name(attr: Attribute) -> Seq<char> {
    match attr {
        Attribute::Body => "BODY"@,
        Attribute::Envelope => "ENVELOPE"@,
        Attribute::Flags => "FLAGS"@,
        Attribute::InternalDate => "INTERNALDATE"@,
        Attribute::ModSeq => "MODSEQ"@,
        Attribute::Rfc822 => "RFC822"@,
        Attribute::Rfc822Size => "RFC822.SIZE"@,
        Attribute::Rfc822Text => "RFC822.TEXT"@,
        Attribute::Uid => "UID"@,
        Attribute::GmailLabels => "X-GM-LABELS"@,
        Attribute::GmailMsgId => "X-GM-MSGID"@,
        Attribute::GmailThrId => "X-GM-THRID"@,
    }
}

fn attr_name(attr: Attribute) -> (r: &'static str)
    ensures
        r@ == spec_attr_name(attr),
{
    match attr {
        Attribute::Body => "BODY",
        Attribute::Envelope => "ENVELOPE",
        Attribute::Flags => "FLAGS",
        Attribute::InternalDate => "INTERNALDATE",
        Attribute::ModSeq => "MODSEQ",
        Attribute::Rfc822 => "RFC822",
        Attribute::Rfc822Size => "RFC822.SIZE",
        Attribute::Rfc822Text => "RFC822.TEXT",
        Attribute::Uid => "UID",
        Attribute::GmailLabels => "X-GM-LABELS",
        Attribute::GmailMsgId => "X-GM-MSGID",
        Attribute::GmailThrId => "X-GM-THRID",
    }
}

/// Each fetch attribute is written as its IMAP name, and no two attributes share a name.
pub proof fn lemma_attr_names(x: Attribute, y: Attribute)
    ensures
        encode_utf8(spec_attr_name(Attribute::Body)) == ascii_bytes("BODY"@),
        encode_utf8(spec_attr_name(Attribute::Envelope)) == ascii_bytes("ENVELOPE"@),
        encode_utf8(spec_attr_name(Attribute::Flags)) == ascii_bytes("FLAGS"@),
        encode_utf8(spec_attr_name(Attribute::InternalDate)) == ascii_bytes("INTERNALDATE"@),
        encode_utf8(spec_attr_name(Attribute::ModSeq)) == ascii_bytes("MODSEQ"@),
        encode_utf8(spec_attr_name(Attribute::Rfc822)) == ascii_bytes("RFC822"@),
        encode_utf8(spec_attr_name(Attribute::Rfc822Size)) == ascii_bytes("RFC822.SIZE"@),
        encode_utf8(spec_attr_name(Attribute::Rfc822Text)) == ascii_bytes("RFC822.TEXT"@),
        encode_utf8(spec_attr_name(Attribute::Uid)) == ascii_bytes("UID"@),
        encode_utf8(spec_attr_name(Attribute::GmailLabels)) == ascii_bytes("X-GM-LABELS"@),
        encode_utf8(spec_attr_name(Attribute::GmailMsgId)) == ascii_bytes("X-GM-MSGID"@),
        encode_utf8(spec_attr_name(Attribute::GmailThrId)) == ascii_bytes("X-GM-THRID"@),
        x != y ==> spec_attr_name(x) != spec_attr_name(y),
{
    reveal_strlit("BODY");
    reveal_strlit("ENVELOPE");
    reveal_strlit("FLAGS");
    reveal_strlit("INTERNALDATE");
    reveal_strlit("MODSEQ");
    reveal_strlit("RFC822");
    reveal_strlit("RFC822.SIZE");
    reveal_strlit("RFC822.TEXT");
    reveal_strlit("UID");
    reveal_strlit("X-GM-LABELS");
    reveal_strlit("X-GM-MSGID");
    reveal_strlit("X-GM-THRID");
    assert forall|t: Seq<char>| t.len() <= 12 && forall|k: int| 0 <= k < t.len() ==> (#[trigger] t[k] as u32) <= 0x7f
        implies encode_utf8(t) == ascii_bytes(t) by {
        lemma_encode_ascii(t);
    }
    assert(encode_utf8(spec_attr_name(Attribute::Body)) == ascii_bytes("BODY"@));
    assert(encode_utf8(spec_attr_name(Attribute::Envelope)) == ascii_bytes("ENVELOPE"@));
    assert(encode_utf8(spec_attr_name(Attribute::Flags)) == ascii_bytes("FLAGS"@));
    assert(encode_utf8(spec_attr_name(Attribute::InternalDate)) == ascii_bytes("INTERNALDATE"@));
    assert(encode_utf8(spec_attr_name(Attribute::ModSeq)) == ascii_bytes("MODSEQ"@));
    assert(encode_utf8(spec_attr_name(Attribute::Rfc822)) == ascii_bytes("RFC822"@));
    assert(encode_utf8(spec_attr_name(Attribute::Rfc822Size)) == ascii_bytes("RFC822.SIZE"@));
    assert(encode_utf8(spec_attr_name(Attribute::Rfc822Text)) == ascii_bytes("RFC822.TEXT"@));
    assert(encode_utf8(spec_attr_name(Attribute::Uid)) == ascii_bytes("UID"@));
    assert(encode_utf8(spec_attr_name(Attribute::GmailLabels)) == ascii_bytes("X-GM-LABELS"@));
    assert(encode_utf8(spec_attr_name(Attribute::GmailMsgId)) == ascii_bytes("X-GM-MSGID"@));
    assert(encode_utf8(spec_attr_name(Attribute::GmailThrId)) == ascii_bytes("X-GM-THRID"@));
    let (u, v) = (spec_attr_name(x), spec_attr_name(y));
    if u == v {
        // The length and the characters at 0, 5 and 7 tell the names apart.
        assert(u.len() == v.len());
        assert(u[0] == v[0]);
        if u.len() > 7 {
            assert(u[5] == v[5]);
            assert(u[7] == v[7]);
        }
        assert(x == y);
    }
}

/// The attributes of a FETCH command, in a parenthesized list.
pub trait FetchBuilderAttributes where Self: Sized {
    /// The arguments that the next attribute is written after.
    spec fn attributes_prefix(&self) -> Seq<u8>;

    fn prepare(self) -> (r: FetchCommandAttributes)
        ensures
            r@ == self.attributes_prefix(),
    ;

    /// One attribute.
    fn attr(self, attr: Attribute) -> (r: FetchCommandAttributes)
        ensures
            r@ == self.attributes_prefix() + encode_utf8(spec_attr_name(attr)),
    {
        let FetchCommandAttributes { mut args } = self.prepare();
        push_text(&mut args, attr_name(attr));
        FetchCommandAttributes { args }
    }
}

impl FetchBuilderAttributes for FetchCommandMessages {
    open spec fn attributes_prefix(&self) -> Seq<u8> {
        self@ + encode_utf8(" ("@)
    }

    fn prepare(self) -> (r: FetchCommandAttributes) {
        let FetchCommandMessages { mut args } = self;
        push_text(&mut args, " (");
        FetchCommandAttributes { args }
    }
}

impl FetchBuilderAttributes for FetchCommandAttributes {
    open spec fn attributes_prefix(&self) -> Seq<u8> {
        self@.push(0x20)
    }

    fn prepare(self) -> (r: FetchCommandAttributes) {
        let FetchCommandAttributes { mut args } = self;
        args.push(0x20);
        FetchCommandAttributes { args }
    }
}

/// The modifiers of a FETCH command, and its completion.
pub trait FetchBuilderModifiers where Self: Sized {
    /// The arguments that a modifier is written after.
    spec fn modifiers_prefix(&self) -> Seq<u8>;

    fn prepare(self) -> (r: FetchCommand)
        ensures
            r@ == self.modifiers_prefix(),
    ;

    /// The finished command, which leaves the state as it is.
    fn build(self) -> (r: Command)
        ensures
            r@ == (self.modifiers_prefix(), None::<State>),
    {
        let FetchCommand { args } = self.prepare();
        Command { args, next_state: None }
    }

    /// Only the messages whose mod-sequence is above `seq` (RFC 4551).
    fn changed_since(self, seq: u64) -> (r: FetchCommand)
        ensures
            r@ == self.modifiers_prefix() + encode_utf8(" (CHANGEDSINCE "@) + spec_decimal(
                seq as nat,
            ) + seq![0x29u8],
    {
        let FetchCommand { mut args } = self.prepare();
        push_text(&mut args, " (CHANGEDSINCE ");
        push_decimal(&mut args, seq);
        args.push(0x29);
        FetchCommand { args }
    }
}

impl FetchBuilderModifiers for FetchCommandAttributes {
    open spec fn modifiers_prefix(&self) -> Seq<u8> {
        self@.push(0x29)
    }

    fn prepare(self) -> (r: FetchCommand) {
        let FetchCommandAttributes { mut args } = self;
        args.push(0x29);
        FetchCommand { args }
    }
}

impl FetchBuilderModifiers for FetchCommand {
    open spec fn modifiers_prefix(&self) -> Seq<u8> {
        self@
    }

    fn prepare(self) -> (r: FetchCommand) {
        self
    }
}

/// The names of `attrs`, separated by spaces.
pub open spec fn attr_list_bytes(attrs: Seq<Attribute>) -> Seq<u8>
    decreases attrs.len(),
{
    if attrs.len() == 0 {
        Seq::empty()
    } else if attrs.len() == 1 {
        encode_utf8(spec_attr_name(attrs[0]))
    } else {
        attr_list_bytes(attrs.drop_last()) + seq![0x20u8] + encode_utf8(spec_attr_name(attrs.last()))
    }
}

proof fn lemma_fetch_attributes_upto(
    m: FetchCommandMessages,
    attrs: Seq<Attribute>,
    steps: Seq<FetchCommandAttributes>,
    k: int,
)
    requires
        1 <= attrs.len() == steps.len(),
        0 <= k < steps.len(),
        steps[0]@ == m.attributes_prefix() + encode_utf8(spec_attr_name(attrs[0])),
        forall|i: int| 0 <= i < steps.len() - 1 ==> #[trigger] steps[i + 1]@ == steps[i].attributes_prefix()
            + encode_utf8(spec_attr_name(attrs[i + 1])),
    ensures
        steps[k]@ == m@ + encode_utf8(" ("@) + attr_list_bytes(attrs.take(k + 1)),
    decreases k,
{
    if k == 0 {
        assert(attrs.take(1) =~= seq![attrs[0]]);
        assert(attr_list_bytes(attrs.take(1)) == encode_utf8(spec_attr_name(attrs[0])));
        assert(steps[0]@ =~= m@ + encode_utf8(" ("@) + attr_list_bytes(attrs.take(1)));
    } else {
        lemma_fetch_attributes_upto(m, attrs, steps, k - 1);
        assert(attrs.take(k + 1).drop_last() =~= attrs.take(k));
        assert(attrs.take(k + 1).last() == attrs[k]);
        assert(steps[k]@ == steps[k - 1].attributes_prefix() + encode_utf8(spec_attr_name(attrs[k])));
        assert(steps[k]@ =~= m@ + encode_utf8(" ("@) + attr_list_bytes(attrs.take(k + 1)));
    }
}

/// A FETCH command with attributes `a1, ..., ak` (k >= 1), each added with `attr` after
/// the messages `m`: once finished, its arguments are those of `m`, " (", the names of the
/// attributes separated by spaces, and ")". `steps` are the values that the `attr` calls
/// return, as their contracts give them.
pub proof fn lemma_fetch_attributes(
    m: FetchCommandMessages,
    attrs: Seq<Attribute>,
    steps: Seq<FetchCommandAttributes>,
)
    requires
        1 <= attrs.len() == steps.len(),
        steps[0]@ == m.attributes_prefix() + encode_utf8(spec_attr_name(attrs[0])),
        forall|i: int| 0 <= i < steps.len() - 1 ==> #[trigger] steps[i + 1]@ == steps[i].attributes_prefix()
            + encode_utf8(spec_attr_name(attrs[i + 1])),
    ensures
        steps.last().modifiers_prefix() == m@ + encode_utf8(" ("@) + attr_list_bytes(attrs) + seq![0x29u8],
{
    let k = steps.len() - 1;
    lemma_fetch_attributes_upto(m, attrs, steps, k);
    assert(attrs.take(k + 1) =~= attrs);
    assert(steps.last().modifiers_prefix() =~= m@ + encode_utf8(" ("@) + attr_list_bytes(attrs) + seq![0x29u8]);
}

} // verus!
