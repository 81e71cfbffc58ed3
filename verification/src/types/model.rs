//! The mathematical values of the types: what the grammar's results are stated in.
//! Text is a sequence of characters, raw data a sequence of bytes, a list a `Seq`.

use vstd::prelude::*;
use std::ops::RangeInclusive;
use crate::types::{
    Address, AttributeValue, BodyContentCommon, BodyContentSinglePart, BodyExtension,
    BodyStructure, Capability, ContentDisposition, ContentEncoding, ContentType, Envelope,
    MailboxDatum, Metadata, MessageSection, NameAttribute, Quota, QuotaResource,
    QuotaResourceName, QuotaRoot, RequestId, Response, ResponseCode, SectionPath, Status,
    StatusAttribute, UidSetMember,
};
use crate::types::acls::{Acl, AclEntry, AclRight, ListRights, MyRights};

verus! {

pub type Text = Seq<char>;

pub type Bytes = Seq<u8>;

/// The bounds of an inclusive range, as the range reads them.
pub open spec fn range_bounds(r: RangeInclusive<u32>) -> (u32, u32) {
    (r@.start, r@.end)
}

pub open spec fn ranges_view(v: Seq<RangeInclusive<u32>>) -> Seq<(u32, u32)> {
    Seq::new(v.len(), |k: int| range_bounds(v[k]))
}

pub enum SpecResponse {
    Capabilities(Seq<SpecCapability>),
    Continue { code: Option<SpecResponseCode>, information: Option<Text> },
    Done { tag: Text, status: Status, code: Option<SpecResponseCode>, information: Option<Text> },
    Data { status: Status, code: Option<SpecResponseCode>, information: Option<Text> },
    Expunge(u32),
    Vanished { earlier: bool, uids: Seq<(u32, u32)> },
    Fetch(u32, Seq<SpecAttributeValue>),
    MailboxData(SpecMailboxDatum),
    Quota(SpecQuota),
    QuotaRoot(SpecQuotaRoot),
    Id(Option<Seq<(Text, Text)>>),
    Acl(SpecAcl),
    ListRights(SpecListRights),
    MyRights(SpecMyRights),
}

pub enum SpecResponseCode {
    Alert,
    BadCharset(Option<Seq<Text>>),
    Capabilities(Seq<SpecCapability>),
    HighestModSeq(u64),
    Parse,
    PermanentFlags(Seq<Text>),
    ReadOnly,
    ReadWrite,
    TryCreate,
    UidNext(u32),
    UidValidity(u32),
    Unseen(u32),
    AppendUid(u32, Seq<SpecUidSetMember>),
    CopyUid(u32, Seq<SpecUidSetMember>, Seq<SpecUidSetMember>),
    UidNotSticky,
    MetadataLongEntries(u64),
    MetadataMaxSize(u64),
    MetadataTooMany,
    MetadataNoPrivate,
}

pub enum SpecUidSetMember {
    UidRange(u32, u32),
    Uid(u32),
}

pub struct SpecMetadata {
    pub entry: Text,
    pub value: Option<Text>,
}

pub enum SpecMailboxDatum {
    Exists(u32),
    Flags(Seq<Text>),
    List { name_attributes: Seq<SpecNameAttribute>, delimiter: Option<Text>, name: Text },
    Search(Seq<u32>),
    Sort(Seq<u32>),
    Status { mailbox: Text, status: Seq<StatusAttribute> },
    Recent(u32),
    MetadataSolicited { mailbox: Text, values: Seq<SpecMetadata> },
    MetadataUnsolicited { mailbox: Text, values: Seq<Text> },
    GmailLabels(Seq<Text>),
    GmailMsgId(u64),
    GmailThrId(u64),
}

pub enum SpecCapability {
    Imap4rev1,
    Auth(Text),
    Atom(Text),
}

pub enum SpecSectionPath {
    Full(MessageSection),
    Part(Seq<u32>, Option<MessageSection>),
}

pub enum SpecAttributeValue {
    BodySection { section: Option<SpecSectionPath>, index: Option<u32>, data: Option<Bytes> },
    BodyStructure(SpecBodyStructure),
    Envelope(SpecEnvelope),
    Flags(Seq<Text>),
    InternalDate(Text),
    ModSeq(u64),
    Rfc822(Option<Bytes>),
    Rfc822Header(Option<Bytes>),
    Rfc822Size(u32),
    Rfc822Text(Option<Bytes>),
    Uid(u32),
    GmailLabels(Seq<Text>),
    GmailMsgId(u64),
    GmailThrId(u64),
}

pub enum SpecBodyStructure {
    Basic {
        common: SpecBodyContentCommon,
        other: SpecBodyContentSinglePart,
        extension: Option<SpecBodyExtension>,
    },
    Text {
        common: SpecBodyContentCommon,
        other: SpecBodyContentSinglePart,
        lines: u32,
        extension: Option<SpecBodyExtension>,
    },
    Message {
        common: SpecBodyContentCommon,
        other: SpecBodyContentSinglePart,
        envelope: SpecEnvelope,
        body: Box<SpecBodyStructure>,
        lines: u32,
        extension: Option<SpecBodyExtension>,
    },
    Multipart {
        common: SpecBodyContentCommon,
        bodies: Seq<SpecBodyStructure>,
        extension: Option<SpecBodyExtension>,
    },
}

pub type SpecBodyParams = Option<Seq<(Text, Text)>>;

pub struct SpecBodyContentCommon {
    pub ty: SpecContentType,
    pub disposition: Option<SpecContentDisposition>,
    pub language: Option<Seq<Text>>,
    pub location: Option<Text>,
}

pub struct SpecBodyContentSinglePart {
    pub id: Option<Text>,
    pub md5: Option<Text>,
    pub description: Option<Text>,
    pub transfer_encoding: SpecContentEncoding,
    pub octets: u32,
}

pub struct SpecContentType {
    pub ty: Text,
    pub subtype: Text,
    pub params: SpecBodyParams,
}

pub struct SpecContentDisposition {
    pub ty: Text,
    pub params: SpecBodyParams,
}

pub enum SpecContentEncoding {
    SevenBit,
    EightBit,
    Binary,
    Base64,
    QuotedPrintable,
    Other(Text),
}

pub enum SpecBodyExtension {
    Num(u32),
    Str(Option<Text>),
    List(Seq<SpecBodyExtension>),
}

pub struct SpecEnvelope {
    pub date: Option<Bytes>,
    pub subject: Option<Bytes>,
    pub from: Option<Seq<SpecAddress>>,
    pub sender: Option<Seq<SpecAddress>>,
    pub reply_to: Option<Seq<SpecAddress>>,
    pub to: Option<Seq<SpecAddress>>,
    pub cc: Option<Seq<SpecAddress>>,
    pub bcc: Option<Seq<SpecAddress>>,
    pub in_reply_to: Option<Bytes>,
    pub message_id: Option<Bytes>,
}

pub struct SpecAddress {
    pub name: Option<Bytes>,
    pub adl: Option<Bytes>,
    pub mailbox: Option<Bytes>,
    pub host: Option<Bytes>,
}

pub enum SpecNameAttribute {
    NoInferiors,
    NoSelect,
    Marked,
    Unmarked,
    All,
    Archive,
    Drafts,
    Flagged,
    Junk,
    Sent,
    Trash,
    Extension(Text),
}

pub enum SpecQuotaResourceName {
    Storage,
    Message,
    Atom(Text),
}

pub struct SpecQuotaResource {
    pub name: SpecQuotaResourceName,
    pub usage: u64,
    pub limit: u64,
}

pub struct SpecQuota {
    pub root_name: Text,
    pub resources: Seq<SpecQuotaResource>,
}

pub struct SpecQuotaRoot {
    pub mailbox_name: Text,
    pub quota_root_names: Seq<Text>,
}

pub struct SpecAcl {
    pub mailbox: Text,
    pub acls: Seq<SpecAclEntry>,
}

pub struct SpecAclEntry {
    pub identifier: Text,
    pub rights: Seq<AclRight>,
}

pub struct SpecListRights {
    pub mailbox: Text,
    pub identifier: Text,
    pub required: Seq<AclRight>,
    pub optional: Seq<AclRight>,
}

pub struct SpecMyRights {
    pub mailbox: Text,
    pub rights: Seq<AclRight>,
}

// ----- views -----

impl DeepView for Status {
    type V = Status;

    open spec fn deep_view(&self) -> Status {
        *self
    }
}

impl DeepView for MessageSection {
    type V = MessageSection;

    open spec fn deep_view(&self) -> MessageSection {
        *self
    }
}

impl DeepView for StatusAttribute {
    type V = StatusAttribute;

    open spec fn deep_view(&self) -> StatusAttribute {
        *self
    }
}

impl DeepView for AclRight {
    type V = AclRight;

    open spec fn deep_view(&self) -> AclRight {
        *self
    }
}

impl DeepView for RequestId {
    type V = Text;

    open spec fn deep_view(&self) -> Text {
        self.0@
    }
}

impl DeepView for Response {
    type V = SpecResponse;

    open spec fn deep_view(&self) -> SpecResponse {
        match self {
            Response::Capabilities(c) => SpecResponse::Capabilities(c.deep_view()),
            Response::Continue { code, information } => SpecResponse::Continue {
                code: code.deep_view(),
                information: information.deep_view(),
            },
            Response::Done { tag, status, code, information } => SpecResponse::Done {
                tag: tag.deep_view(),
                status: *status,
                code: code.deep_view(),
                information: information.deep_view(),
            },
            Response::Data { status, code, information } => SpecResponse::Data {
                status: *status,
                code: code.deep_view(),
                information: information.deep_view(),
            },
            Response::Expunge(n) => SpecResponse::Expunge(*n),
            Response::Vanished { earlier, uids } => SpecResponse::Vanished {
                earlier: *earlier,
                uids: ranges_view(uids@),
            },
            Response::Fetch(n, a) => SpecResponse::Fetch(*n, a.deep_view()),
            Response::MailboxData(d) => SpecResponse::MailboxData(d.deep_view()),
            Response::Quota(q) => SpecResponse::Quota(q.deep_view()),
            Response::QuotaRoot(q) => SpecResponse::QuotaRoot(q.deep_view()),
            Response::Id(m) => SpecResponse::Id(m.deep_view()),
            Response::Acl(a) => SpecResponse::Acl(a.deep_view()),
            Response::ListRights(a) => SpecResponse::ListRights(a.deep_view()),
            Response::MyRights(a) => SpecResponse::MyRights(a.deep_view()),
        }
    }
}

impl DeepView for ResponseCode {
    type V = SpecResponseCode;

    open spec fn deep_view(&self) -> SpecResponseCode {
        match self {
            ResponseCode::Alert => SpecResponseCode::Alert,
            ResponseCode::BadCharset(v) => SpecResponseCode::BadCharset(v.deep_view()),
            ResponseCode::Capabilities(v) => SpecResponseCode::Capabilities(v.deep_view()),
            ResponseCode::HighestModSeq(n) => SpecResponseCode::HighestModSeq(*n),
            ResponseCode::Parse => SpecResponseCode::Parse,
            ResponseCode::PermanentFlags(v) => SpecResponseCode::PermanentFlags(v.deep_view()),
            ResponseCode::ReadOnly => SpecResponseCode::ReadOnly,
            ResponseCode::ReadWrite => SpecResponseCode::ReadWrite,
            ResponseCode::TryCreate => SpecResponseCode::TryCreate,
            ResponseCode::UidNext(n) => SpecResponseCode::UidNext(*n),
            ResponseCode::UidValidity(n) => SpecResponseCode::UidValidity(*n),
            ResponseCode::Unseen(n) => SpecResponseCode::Unseen(*n),
            ResponseCode::AppendUid(n, v) => SpecResponseCode::AppendUid(*n, v.deep_view()),
            ResponseCode::CopyUid(n, a, b) => SpecResponseCode::CopyUid(
                *n,
                a.deep_view(),
                b.deep_view(),
            ),
            ResponseCode::UidNotSticky => SpecResponseCode::UidNotSticky,
            ResponseCode::MetadataLongEntries(n) => SpecResponseCode::MetadataLongEntries(*n),
            ResponseCode::MetadataMaxSize(n) => SpecResponseCode::MetadataMaxSize(*n),
            ResponseCode::MetadataTooMany => SpecResponseCode::MetadataTooMany,
            ResponseCode::MetadataNoPrivate => SpecResponseCode::MetadataNoPrivate,
        }
    }
}

impl DeepView for UidSetMember {
    type V = SpecUidSetMember;

    open spec fn deep_view(&self) -> SpecUidSetMember {
        match self {
            UidSetMember::UidRange(r) => SpecUidSetMember::UidRange(r@.start, r@.end),
            UidSetMember::Uid(n) => SpecUidSetMember::Uid(*n),
        }
    }
}

impl DeepView for Metadata {
    type V = SpecMetadata;

    open spec fn deep_view(&self) -> SpecMetadata {
        SpecMetadata { entry: self.entry@, value: self.value.deep_view() }
    }
}

impl DeepView for MailboxDatum {
    type V = SpecMailboxDatum;

    open spec fn deep_view(&self) -> SpecMailboxDatum {
        match self {
            MailboxDatum::Exists(n) => SpecMailboxDatum::Exists(*n),
            MailboxDatum::Flags(v) => SpecMailboxDatum::Flags(v.deep_view()),
            MailboxDatum::List { name_attributes, delimiter, name } => SpecMailboxDatum::List {
                name_attributes: name_attributes.deep_view(),
                delimiter: delimiter.deep_view(),
                name: name@,
            },
            MailboxDatum::Search(v) => SpecMailboxDatum::Search(v.deep_view()),
            MailboxDatum::Sort(v) => SpecMailboxDatum::Sort(v.deep_view()),
            MailboxDatum::Status { mailbox, status } => SpecMailboxDatum::Status {
                mailbox: mailbox@,
                status: status.deep_view(),
            },
            MailboxDatum::Recent(n) => SpecMailboxDatum::Recent(*n),
            MailboxDatum::MetadataSolicited { mailbox, values } =>
                SpecMailboxDatum::MetadataSolicited {
                mailbox: mailbox@,
                values: values.deep_view(),
            },
            MailboxDatum::MetadataUnsolicited { mailbox, values } =>
                SpecMailboxDatum::MetadataUnsolicited {
                mailbox: mailbox@,
                values: values.deep_view(),
            },
            MailboxDatum::GmailLabels(v) => SpecMailboxDatum::GmailLabels(v.deep_view()),
            MailboxDatum::GmailMsgId(n) => SpecMailboxDatum::GmailMsgId(*n),
            MailboxDatum::GmailThrId(n) => SpecMailboxDatum::GmailThrId(*n),
        }
    }
}

impl DeepView for Capability {
    type V = SpecCapability;

    open spec fn deep_view(&self) -> SpecCapability {
        match self {
            Capability::Imap4rev1 => SpecCapability::Imap4rev1,
            Capability::Auth(s) => SpecCapability::Auth(s@),
            Capability::Atom(s) => SpecCapability::Atom(s@),
        }
    }
}

impl DeepView for SectionPath {
    type V = SpecSectionPath;

    open spec fn deep_view(&self) -> SpecSectionPath {
        match self {
            SectionPath::Full(m) => SpecSectionPath::Full(*m),
            SectionPath::Part(p, m) => SpecSectionPath::Part(p.deep_view(), *m),
        }
    }
}

impl DeepView for AttributeValue {
    type V = SpecAttributeValue;

    open spec fn deep_view(&self) -> SpecAttributeValue {
        match self {
            AttributeValue::BodySection { section, index, data } =>
                SpecAttributeValue::BodySection {
                section: section.deep_view(),
                index: *index,
                data: data.deep_view(),
            },
            AttributeValue::BodyStructure(b) => SpecAttributeValue::BodyStructure(b.deep_view()),
            AttributeValue::Envelope(e) => SpecAttributeValue::Envelope(e.deep_view()),
            AttributeValue::Flags(v) => SpecAttributeValue::Flags(v.deep_view()),
            AttributeValue::InternalDate(s) => SpecAttributeValue::InternalDate(s@),
            AttributeValue::ModSeq(n) => SpecAttributeValue::ModSeq(*n),
            AttributeValue::Rfc822(d) => SpecAttributeValue::Rfc822(d.deep_view()),
            AttributeValue::Rfc822Header(d) => SpecAttributeValue::Rfc822Header(d.deep_view()),
            AttributeValue::Rfc822Size(n) => SpecAttributeValue::Rfc822Size(*n),
            AttributeValue::Rfc822Text(d) => SpecAttributeValue::Rfc822Text(d.deep_view()),
            AttributeValue::Uid(n) => SpecAttributeValue::Uid(*n),
            AttributeValue::GmailLabels(v) => SpecAttributeValue::GmailLabels(v.deep_view()),
            AttributeValue::GmailMsgId(n) => SpecAttributeValue::GmailMsgId(*n),
            AttributeValue::GmailThrId(n) => SpecAttributeValue::GmailThrId(*n),
        }
    }
}

/// The model of a body structure, part by part.
pub open spec fn body_structure_view(b: BodyStructure) -> SpecBodyStructure
    decreases b,
{
    match b {
        BodyStructure::Basic { common, other, extension } => SpecBodyStructure::Basic {
            common: common.deep_view(),
            other: other.deep_view(),
            extension: extension.deep_view(),
        },
        BodyStructure::Text { common, other, lines, extension } => SpecBodyStructure::Text {
            common: common.deep_view(),
            other: other.deep_view(),
            lines: lines,
            extension: extension.deep_view(),
        },
        BodyStructure::Message { common, other, envelope, body, lines, extension } =>
            SpecBodyStructure::Message {
            common: common.deep_view(),
            other: other.deep_view(),
            envelope: envelope.deep_view(),
            body: Box::new(body_structure_view(*body)),
            lines: lines,
            extension: extension.deep_view(),
        },
        BodyStructure::Multipart { common, bodies, extension } =>
            SpecBodyStructure::Multipart {
            common: common.deep_view(),
            bodies: Seq::new(
                bodies@.len(),
                |k: int|
                    if 0 <= k < bodies@.len() {
                        body_structure_view(bodies@[k])
                    } else {
                        arbitrary()
                    },
            ),
            extension: extension.deep_view(),
        },
    }
}

impl DeepView for BodyStructure {
    type V = SpecBodyStructure;

    open spec fn deep_view(&self) -> SpecBodyStructure {
        body_structure_view(*self)
    }
}

impl DeepView for BodyContentCommon {
    type V = SpecBodyContentCommon;

    open spec fn deep_view(&self) -> SpecBodyContentCommon {
        SpecBodyContentCommon {
            ty: self.ty.deep_view(),
            disposition: self.disposition.deep_view(),
            language: self.language.deep_view(),
            location: self.location.deep_view(),
        }
    }
}

impl DeepView for BodyContentSinglePart {
    type V = SpecBodyContentSinglePart;

    open spec fn deep_view(&self) -> SpecBodyContentSinglePart {
        SpecBodyContentSinglePart {
            id: self.id.deep_view(),
            md5: self.md5.deep_view(),
            description: self.description.deep_view(),
            transfer_encoding: self.transfer_encoding.deep_view(),
            octets: self.octets,
        }
    }
}

impl DeepView for ContentType {
    type V = SpecContentType;

    open spec fn deep_view(&self) -> SpecContentType {
        SpecContentType {
            ty: self.ty@,
            subtype: self.subtype@,
            params: self.params.deep_view(),
        }
    }
}

impl DeepView for ContentDisposition {
    type V = SpecContentDisposition;

    open spec fn deep_view(&self) -> SpecContentDisposition {
        SpecContentDisposition { ty: self.ty@, params: self.params.deep_view() }
    }
}

impl DeepView for ContentEncoding {
    type V = SpecContentEncoding;

    open spec fn deep_view(&self) -> SpecContentEncoding {
        match self {
            ContentEncoding::SevenBit => SpecContentEncoding::SevenBit,
            ContentEncoding::EightBit => SpecContentEncoding::EightBit,
            ContentEncoding::Binary => SpecContentEncoding::Binary,
            ContentEncoding::Base64 => SpecContentEncoding::Base64,
            ContentEncoding::QuotedPrintable => SpecContentEncoding::QuotedPrintable,
            ContentEncoding::Other(s) => SpecContentEncoding::Other(s@),
        }
    }
}

impl DeepView for BodyExtension {
    type V = SpecBodyExtension;

    open spec fn deep_view(&self) -> SpecBodyExtension
        decreases self,
    {
        match self {
            BodyExtension::Num(n) => SpecBodyExtension::Num(*n),
            BodyExtension::Str(s) => SpecBodyExtension::Str(s.deep_view()),
            BodyExtension::List(v) => SpecBodyExtension::List(
                Seq::new(
                    v@.len(),
                    |k: int|
                        if 0 <= k < v@.len() {
                            v@[k].deep_view()
                        } else {
                            arbitrary()
                        },
                ),
            ),
        }
    }
}

impl DeepView for Envelope {
    type V = SpecEnvelope;

    open spec fn deep_view(&self) -> SpecEnvelope {
        SpecEnvelope {
            date: self.date.deep_view(),
            subject: self.subject.deep_view(),
            from: self.from.deep_view(),
            sender: self.sender.deep_view(),
            reply_to: self.reply_to.deep_view(),
            to: self.to.deep_view(),
            cc: self.cc.deep_view(),
            bcc: self.bcc.deep_view(),
            in_reply_to: self.in_reply_to.deep_view(),
            message_id: self.message_id.deep_view(),
        }
    }
}

impl DeepView for Address {
    type V = SpecAddress;

    open spec fn deep_view(&self) -> SpecAddress {
        SpecAddress {
            name: self.name.deep_view(),
            adl: self.adl.deep_view(),
            mailbox: self.mailbox.deep_view(),
            host: self.host.deep_view(),
        }
    }
}

impl DeepView for NameAttribute {
    type V = SpecNameAttribute;

    open spec fn deep_view(&self) -> SpecNameAttribute {
        match self {
            NameAttribute::NoInferiors => SpecNameAttribute::NoInferiors,
            NameAttribute::NoSelect => SpecNameAttribute::NoSelect,
            NameAttribute::Marked => SpecNameAttribute::Marked,
            NameAttribute::Unmarked => SpecNameAttribute::Unmarked,
            NameAttribute::All => SpecNameAttribute::All,
            NameAttribute::Archive => SpecNameAttribute::Archive,
            NameAttribute::Drafts => SpecNameAttribute::Drafts,
            NameAttribute::Flagged => SpecNameAttribute::Flagged,
            NameAttribute::Junk => SpecNameAttribute::Junk,
            NameAttribute::Sent => SpecNameAttribute::Sent,
            NameAttribute::Trash => SpecNameAttribute::Trash,
            NameAttribute::Extension(s) => SpecNameAttribute::Extension(s@),
        }
    }
}

impl DeepView for QuotaResourceName {
    type V = SpecQuotaResourceName;

    open spec fn deep_view(&self) -> SpecQuotaResourceName {
        match self {
            QuotaResourceName::Storage => SpecQuotaResourceName::Storage,
            QuotaResourceName::Message => SpecQuotaResourceName::Message,
            QuotaResourceName::Atom(s) => SpecQuotaResourceName::Atom(s@),
        }
    }
}

impl DeepView for QuotaResource {
    type V = SpecQuotaResource;

    open spec fn deep_view(&self) -> SpecQuotaResource {
        SpecQuotaResource { name: self.name.deep_view(), usage: self.usage, limit: self.limit }
    }
}

impl DeepView for Quota {
    type V = SpecQuota;

    open spec fn deep_view(&self) -> SpecQuota {
        SpecQuota { root_name: self.root_name@, resources: self.resources.deep_view() }
    }
}

impl DeepView for QuotaRoot {
    type V = SpecQuotaRoot;

    open spec fn deep_view(&self) -> SpecQuotaRoot {
        SpecQuotaRoot {
            mailbox_name: self.mailbox_name@,
            quota_root_names: self.quota_root_names.deep_view(),
        }
    }
}

impl DeepView for Acl {
    type V = SpecAcl;

    open spec fn deep_view(&self) -> SpecAcl {
        SpecAcl { mailbox: self.mailbox@, acls: self.acls.deep_view() }
    }
}

impl DeepView for AclEntry {
    type V = SpecAclEntry;

    open spec fn deep_view(&self) -> SpecAclEntry {
        SpecAclEntry { identifier: self.identifier@, rights: self.rights.deep_view() }
    }
}

impl DeepView for ListRights {
    type V = SpecListRights;

    open spec fn deep_view(&self) -> SpecListRights {
        SpecListRights {
            mailbox: self.mailbox@,
            identifier: self.identifier@,
            required: self.required.deep_view(),
            optional: self.optional.deep_view(),
        }
    }
}

impl DeepView for MyRights {
    type V = SpecMyRights;

    open spec fn deep_view(&self) -> SpecMyRights {
        SpecMyRights { mailbox: self.mailbox@, rights: self.rights.deep_view() }
    }
}

} // verus!
