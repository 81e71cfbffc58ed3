//! The values that IMAP responses and commands carry.
//!
//! Text that the protocol carries as UTF-8 is held as `String`, raw message data as
//! `Vec<u8>`; every value owns its data.

use vstd::prelude::*;
use std::ops::RangeInclusive;

pub mod acls;
pub mod model;

use crate::types::acls::{Acl, ListRights, MyRights};

verus! {

/// A command line to send: the tag, then the command.
#[derive(Clone, Debug, Eq, PartialEq)]
pub struct Request(pub Vec<u8>, pub Vec<u8>);

#[derive(Copy, Clone, Debug, Eq, PartialEq)]
pub enum AttrMacro {
    All,
    Fast,
    Full,
}

#[derive(Debug, Eq, PartialEq)]
pub enum Response {
    Capabilities(Vec<Capability>),
    Continue { code: Option<ResponseCode>, information: Option<String> },
    Done { tag: RequestId, status: Status, code: Option<ResponseCode>, information: Option<String> },
    Data { status: Status, code: Option<ResponseCode>, information: Option<String> },
    Expunge(u32),
    Vanished { earlier: bool, uids: Vec<RangeInclusive<u32>> },
    Fetch(u32, Vec<AttributeValue>),
    MailboxData(MailboxDatum),
    Quota(Quota),
    QuotaRoot(QuotaRoot),
    /// The ID response: `None` for NIL, else the parameters that have a value, each field once.
    Id(Option<Vec<(String, String)>>),
    Acl(Acl),
    ListRights(ListRights),
    MyRights(MyRights),
}

impl Response {
    /// The same response; every value of this crate already owns its data.
    pub fn into_owned(self) -> (r: Response)
        ensures
            r == self,
    {
        self
    }
}

#[derive(Clone, Copy, Debug, Eq, PartialEq)]
pub enum Status {
    /// The OK status (named so because `Ok` is reserved here).
    Okay,
    No,
    Bad,
    PreAuth,
    Bye,
}

#[derive(Debug, Eq, PartialEq)]
pub enum ResponseCode {
    Alert,
    BadCharset(Option<Vec<String>>),
    Capabilities(Vec<Capability>),
    HighestModSeq(u64),
    Parse,
    PermanentFlags(Vec<String>),
    ReadOnly,
    ReadWrite,
    TryCreate,
    UidNext(u32),
    UidValidity(u32),
    Unseen(u32),
    AppendUid(u32, Vec<UidSetMember>),
    CopyUid(u32, Vec<UidSetMember>, Vec<UidSetMember>),
    UidNotSticky,
    MetadataLongEntries(u64),
    MetadataMaxSize(u64),
    MetadataTooMany,
    MetadataNoPrivate,
}

impl ResponseCode {
    /// The same code; every value of this crate already owns its data.
    pub fn into_owned(self) -> (r: ResponseCode)
        ensures
            r == self,
    {
        self
    }
}

#[derive(Debug, Eq, PartialEq)]
pub enum UidSetMember {
    UidRange(RangeInclusive<u32>),
    Uid(u32),
}

impl From<RangeInclusive<u32>> for UidSetMember {
    fn from(x: RangeInclusive<u32>) -> (r: UidSetMember) {
        UidSetMember::UidRange(x)
    }
}

impl vstd::std_specs::convert::FromSpecImpl<RangeInclusive<u32>> for UidSetMember {
    open spec fn obeys_from_spec() -> bool {
        true
    }

    open spec fn from_spec(v: RangeInclusive<u32>) -> UidSetMember {
        UidSetMember::UidRange(v)
    }
}

impl From<u32> for UidSetMember {
    fn from(x: u32) -> (r: UidSetMember) {
        UidSetMember::Uid(x)
    }
}

impl vstd::std_specs::convert::FromSpecImpl<u32> for UidSetMember {
    open spec fn obeys_from_spec() -> bool {
        true
    }

    open spec fn from_spec(v: u32) -> UidSetMember {
        UidSetMember::Uid(v)
    }
}

#[derive(Clone, Copy, Debug, Eq, PartialEq)]
pub enum StatusAttribute {
    HighestModSeq(u64),
    Messages(u32),
    Recent(u32),
    UidNext(u32),
    UidValidity(u32),
    Unseen(u32),
}

#[derive(Clone, Debug, Eq, PartialEq)]
pub struct Metadata {
    pub entry: String,
    pub value: Option<String>,
}

#[derive(Clone, Debug, Eq, PartialEq)]
pub enum MailboxDatum {
    Exists(u32),
    Flags(Vec<String>),
    List { name_attributes: Vec<NameAttribute>, delimiter: Option<String>, name: String },
    Search(Vec<u32>),
    Sort(Vec<u32>),
    Status { mailbox: String, status: Vec<StatusAttribute> },
    Recent(u32),
    MetadataSolicited { mailbox: String, values: Vec<Metadata> },
    MetadataUnsolicited { mailbox: String, values: Vec<String> },
    GmailLabels(Vec<String>),
    GmailMsgId(u64),
    GmailThrId(u64),
}

impl MailboxDatum {
    /// The same datum; every value of this crate already owns its data.
    pub fn into_owned(self) -> (r: MailboxDatum)
        ensures
            r == self,
    {
        self
    }
}

#[derive(Clone, Debug, Eq, PartialEq, Hash)]
pub enum Capability {
    Imap4rev1,
    Auth(String),
    Atom(String),
}

impl Capability {
    /// The same capability; every value of this crate already owns its data.
    pub fn into_owned(self) -> (r: Capability)
        ensures
            r == self,
    {
        self
    }
}

#[derive(Clone, Copy, Debug, Eq, PartialEq)]
pub enum Attribute {
    Body,
    Envelope,
    Flags,
    InternalDate,
    ModSeq,
    Rfc822,
    Rfc822Size,
    Rfc822Text,
    Uid,
    GmailLabels,
    GmailMsgId,
    GmailThrId,
}

#[derive(Clone, Copy, Debug, Eq, PartialEq)]
pub enum MessageSection {
    Header,
    Mime,
    Text,
}

#[derive(Clone, Debug, Eq, PartialEq)]
pub enum SectionPath {
    Full(MessageSection),
    Part(Vec<u32>, Option<MessageSection>),
}

#[derive(Debug, Eq, PartialEq)]
pub enum AttributeValue {
    BodySection { section: Option<SectionPath>, index: Option<u32>, data: Option<Vec<u8>> },
    BodyStructure(BodyStructure),
    Envelope(Box<Envelope>),
    Flags(Vec<String>),
    InternalDate(String),
    ModSeq(u64),
    Rfc822(Option<Vec<u8>>),
    Rfc822Header(Option<Vec<u8>>),
    Rfc822Size(u32),
    Rfc822Text(Option<Vec<u8>>),
    Uid(u32),
    GmailLabels(Vec<String>),
    GmailMsgId(u64),
    GmailThrId(u64),
}

impl AttributeValue {
    /// The same value; every value of this crate already owns its data.
    pub fn into_owned(self) -> (r: AttributeValue)
        ensures
            r == self,
    {
        self
    }
}

#[derive(Debug, Eq, PartialEq)]
pub enum BodyStructure {
    Basic {
        common: BodyContentCommon,
        other: BodyContentSinglePart,
        extension: Option<BodyExtension>,
    },
    Text {
        common: BodyContentCommon,
        other: BodyContentSinglePart,
        lines: u32,
        extension: Option<BodyExtension>,
    },
    Message {
        common: BodyContentCommon,
        other: BodyContentSinglePart,
        envelope: Envelope,
        body: Box<BodyStructure>,
        lines: u32,
        extension: Option<BodyExtension>,
    },
    Multipart {
        common: BodyContentCommon,
        bodies: Vec<BodyStructure>,
        extension: Option<BodyExtension>,
    },
}

impl BodyStructure {
    /// The same structure; every value of this crate already owns its data.
    pub fn into_owned(self) -> (r: BodyStructure)
        ensures
            r == self,
    {
        self
    }
}

#[derive(Debug, Eq, PartialEq)]
pub struct BodyContentCommon {
    pub ty: ContentType,
    pub disposition: Option<ContentDisposition>,
    pub language: Option<Vec<String>>,
    pub location: Option<String>,
}

impl BodyContentCommon {
    /// The same value; every value of this crate already owns its data.
    pub fn into_owned(self) -> (r: BodyContentCommon)
        ensures
            r == self,
    {
        self
    }
}

#[derive(Debug, Eq, PartialEq)]
pub struct BodyContentSinglePart {
    pub id: Option<String>,
    pub md5: Option<String>,
    pub description: Option<String>,
    pub transfer_encoding: ContentEncoding,
    pub octets: u32,
}

impl BodyContentSinglePart {
    /// The same value; every value of this crate already owns its data.
    pub fn into_owned(self) -> (r: BodyContentSinglePart)
        ensures
            r == self,
    {
        self
    }
}

#[derive(Debug, Eq, PartialEq)]
pub struct ContentType {
    pub ty: String,
    pub subtype: String,
    pub params: Option<Vec<(String, String)>>,
}

impl ContentType {
    /// The same value; every value of this crate already owns its data.
    pub fn into_owned(self) -> (r: ContentType)
        ensures
            r == self,
    {
        self
    }
}

#[derive(Debug, Eq, PartialEq)]
pub struct ContentDisposition {
    pub ty: String,
    pub params: Option<Vec<(String, String)>>,
}

impl ContentDisposition {
    /// The same value; every value of this crate already owns its data.
    pub fn into_owned(self) -> (r: ContentDisposition)
        ensures
            r == self,
    {
        self
    }
}

#[derive(Debug, Eq, PartialEq)]
pub enum ContentEncoding {
    SevenBit,
    EightBit,
    Binary,
    Base64,
    QuotedPrintable,
    Other(String),
}

impl ContentEncoding {
    /// The same value; every value of this crate already owns its data.
    pub fn into_owned(self) -> (r: ContentEncoding)
        ensures
            r == self,
    {
        self
    }
}

#[derive(Debug, Eq, PartialEq)]
pub enum BodyExtension {
    Num(u32),
    Str(Option<String>),
    List(Vec<BodyExtension>),
}

impl BodyExtension {
    /// The same value; every value of this crate already owns its data.
    pub fn into_owned(self) -> (r: BodyExtension)
        ensures
            r == self,
    {
        self
    }
}

/// An RFC 2822 envelope.
#[derive(Debug, Eq, PartialEq)]
pub struct Envelope {
    pub date: Option<Vec<u8>>,
    pub subject: Option<Vec<u8>>,
    /// Author of the message; mailbox responsible for writing the message
    pub from: Option<Vec<Address>>,
    /// Mailbox of the agent responsible for the message's transmission
    pub sender: Option<Vec<Address>>,
    /// Mailbox that the author of the message suggests replies be sent to
    pub reply_to: Option<Vec<Address>>,
    pub to: Option<Vec<Address>>,
    pub cc: Option<Vec<Address>>,
    pub bcc: Option<Vec<Address>>,
    pub in_reply_to: Option<Vec<u8>>,
    pub message_id: Option<Vec<u8>>,
}

impl Envelope {
    /// The same value; every value of this crate already owns its data.
    pub fn into_owned(self) -> (r: Envelope)
        ensures
            r == self,
    {
        self
    }
}

#[derive(Debug, Eq, PartialEq)]
pub struct Address {
    pub name: Option<Vec<u8>>,
    pub adl: Option<Vec<u8>>,
    pub mailbox: Option<Vec<u8>>,
    pub host: Option<Vec<u8>>,
}

impl Address {
    /// The same value; every value of this crate already owns its data.
    pub fn into_owned(self) -> (r: Address)
        ensures
            r == self,
    {
        self
    }
}

#[derive(Clone, Debug, Eq, PartialEq)]
pub struct RequestId(pub String);

impl RequestId {
    /// The tag's bytes.
    pub fn as_bytes(&self) -> (r: &[u8])
        ensures
            r@ == vstd::utf8::encode_utf8(self.0@),
    {
        self.0.as_str().as_bytes()
    }
}

#[derive(Clone, Copy, Debug, Eq, PartialEq)]
pub enum State {
    NotAuthenticated,
    Authenticated,
    Selected,
    Logout,
}

/// The fields that every body part carries.
pub struct BodyFields {
    pub param: Option<Vec<(String, String)>>,
    pub id: Option<String>,
    pub description: Option<String>,
    pub transfer_encoding: ContentEncoding,
    pub octets: u32,
}

impl BodyFields {
    /// The same value; every value of this crate already owns its data.
    pub fn into_owned(self) -> (r: BodyFields)
        ensures
            r == self,
    {
        self
    }
}

/// The extension data of a single-part body.
pub struct BodyExt1Part {
    pub md5: Option<String>,
    pub disposition: Option<ContentDisposition>,
    pub language: Option<Vec<String>>,
    pub location: Option<String>,
    pub extension: Option<BodyExtension>,
}

impl BodyExt1Part {
    /// The same value; every value of this crate already owns its data.
    pub fn into_owned(self) -> (r: BodyExt1Part)
        ensures
            r == self,
    {
        self
    }
}

/// The extension data of a multipart body.
pub struct BodyExtMPart {
    pub param: Option<Vec<(String, String)>>,
    pub disposition: Option<ContentDisposition>,
    pub language: Option<Vec<String>>,
    pub location: Option<String>,
    pub extension: Option<BodyExtension>,
}

impl BodyExtMPart {
    /// The same value; every value of this crate already owns its data.
    pub fn into_owned(self) -> (r: BodyExtMPart)
        ensures
            r == self,
    {
        self
    }
}

/// The name attributes of a LIST response (RFC 3501 section 7.2.2), with the
/// special-use attributes of RFC 6154 section 2.
#[derive(Debug, Eq, PartialEq, Clone)]
pub enum NameAttribute {
    NoInferiors,
    NoSelect,
    Marked,
    Unmarked,
    All,
    Archive,
    Drafts,
    Flagged,
    Junk,
    Sent,
    Trash,
    /// Any other name attribute, with its backslash.
    Extension(String),
}

impl NameAttribute {
    /// The same value; every value of this crate already owns its data.
    pub fn into_owned(self) -> (r: NameAttribute)
        ensures
            r == self,
    {
        self
    }
}

/// A resource of the QUOTA extension (RFC 2087 section 3).
#[derive(Debug, Eq, PartialEq, Hash, Clone)]
pub enum QuotaResourceName {
    /// Sum of messages' RFC822.SIZE, in units of 1024 octets
    Storage,
    /// Number of messages
    Message,
    Atom(String),
}

impl QuotaResourceName {
    /// The same value; every value of this crate already owns its data.
    pub fn into_owned(self) -> (r: QuotaResourceName)
        ensures
            r == self,
    {
        self
    }
}

/// One resource of a QUOTA response (RFC 2087 section 5.1).
#[derive(Debug, Eq, PartialEq, Hash, Clone)]
pub struct QuotaResource {
    pub name: QuotaResourceName,
    /// current usage of the resource
    pub usage: u64,
    /// resource limit
    pub limit: u64,
}

impl QuotaResource {
    /// The same value; every value of this crate already owns its data.
    pub fn into_owned(self) -> (r: QuotaResource)
        ensures
            r == self,
    {
        self
    }
}

/// A QUOTA response (RFC 2087 section 5.1).
#[derive(Debug, Eq, PartialEq, Hash, Clone)]
pub struct Quota {
    /// quota root name
    pub root_name: String,
    pub resources: Vec<QuotaResource>,
}

impl Quota {
    /// The same value; every value of this crate already owns its data.
    pub fn into_owned(self) -> (r: Quota)
        ensures
            r == self,
    {
        self
    }
}

/// A QUOTAROOT response (RFC 2087 section 5.2).
#[derive(Debug, Eq, PartialEq, Hash, Clone)]
pub struct QuotaRoot {
    /// mailbox name
    pub mailbox_name: String,
    /// zero or more quota root names
    pub quota_root_names: Vec<String>,
}

impl QuotaRoot {
    /// The same value; every value of this crate already owns its data.
    pub fn into_owned(self) -> (r: QuotaRoot)
        ensures
            r == self,
    {
        self
    }
}

} // verus!
