//! The values that the parser produces, and their mathematical models.
//!
//! Each type that holds text implements `DeepView`: its model replaces every `String` by the
//! characters it holds and every `Vec` by the sequence of the models of its items.

use vstd::prelude::*;

verus! {

/// One parsed server response.
#[derive(Debug, PartialEq, Eq)]
pub enum Response {
    Capabilities(Vec<Capability>),
    Continue { code: Option<ResponseCode>, information: Option<String> },
    Done(ResponseDone),
    Data(ResponseData),
    Expunge(u32),
    Vanished { earlier: bool, uids: Vec<UidSetMember> },
    Fetch(u32, Vec<AttributeValue>),
    MailboxData(MailboxData),
}

/// An untagged status response (`* OK ...`).
#[derive(Clone, Debug, PartialEq, Eq)]
pub struct ResponseData {
    pub status: Status,
    pub code: Option<ResponseCode>,
    pub information: Option<String>,
}

/// The tagged response that completes one command.
#[derive(Clone, Debug, PartialEq, Eq)]
pub struct ResponseDone {
    pub tag: String,
    pub status: Status,
    pub code: Option<ResponseCode>,
    pub information: Option<String>,
}

#[derive(Clone, Debug, Hash, PartialEq, Eq)]
pub enum Capability {
    Imap4rev1,
    Auth(String),
    Atom(String),
}

#[derive(Clone, Debug, PartialEq, Eq)]
pub enum ResponseCode {
    Alert,
    BadCharset(Option<Vec<String>>),
    Capabilities(Vec<Capability>),
    HighestModSeq(u64),
    Parse,
    PermanentFlags(Vec<String>),
    ReadOnly,
    ReadWrite,
    TryCreate,
    UidNext(u32),
    UidValidity(u32),
    Unseen(u32),
    AppendUid(u32, Vec<UidSetMember>),
    CopyUid(u32, Vec<UidSetMember>, Vec<UidSetMember>),
    UidNotSticky,
    Other(String, Option<String>),
}

/// One member of a UID set: a single UID or an inclusive range.
#[derive(Clone, Copy, Debug, PartialEq, Eq)]
pub enum UidSetMember {
    UidRange(u32, u32),
    Uid(u32),
}

/// A point in time as IMAP writes it: a calendar date, a time of day and the offset
/// of the zone from UTC in seconds.
#[derive(Clone, Copy, Debug, PartialEq, Eq)]
pub struct DateTime {
    pub year: u32,
    pub month: u32,
    pub day: u32,
    pub hour: u32,
    pub minute: u32,
    pub second: u32,
    pub offset_seconds: i32,
}

#[derive(Debug, PartialEq, Eq)]
pub enum AttributeValue {
    BodySection(BodySection),
    BodyStructure(BodyStructure),
    Envelope(Envelope),
    Flags(Vec<MailboxFlag>),
    InternalDate(DateTime),
    ModSeq(u64),
    Rfc822(Option<Vec<u8>>),
    Rfc822Header(Option<Vec<u8>>),
    Rfc822Size(u32),
    Rfc822Text(Option<Vec<u8>>),
    Uid(u32),
    /// A well-formed attribute that this library does not structure; holds its name.
    Unparsed(String),
}

#[derive(Clone, Debug, PartialEq, Eq)]
pub struct BodySection {
    pub section: Option<SectionPath>,
    pub index: Option<u32>,
    pub data: Option<Vec<u8>>,
}

#[derive(Debug, PartialEq, Eq)]
pub enum BodyStructure {
    Basic {
        common: BodyContentCommon,
        other: BodyContentSinglePart,
        extension: Option<BodyExtension>,
    },
    Text {
        common: BodyContentCommon,
        other: BodyContentSinglePart,
        lines: u32,
        extension: Option<BodyExtension>,
    },
    Message {
        common: BodyContentCommon,
        other: BodyContentSinglePart,
        envelope: Envelope,
        body: Box<BodyStructure>,
        lines: u32,
        extension: Option<BodyExtension>,
    },
    Multipart {
        common: BodyContentCommon,
        bodies: Vec<BodyStructure>,
        extension: Option<BodyExtension>,
    },
}

#[derive(Clone, Debug, PartialEq, Eq)]
pub struct BodyContentSinglePart {
    pub id: Option<String>,
    pub md5: Option<String>,
    pub description: Option<String>,
    pub transfer_encoding: ContentEncoding,
    pub octets: u32,
}

#[derive(Clone, Debug, PartialEq, Eq)]
pub struct BodyContentCommon {
    pub ty: ContentType,
    pub disposition: Option<ContentDisposition>,
    pub language: Option<Vec<String>>,
    pub location: Option<String>,
}

#[derive(Clone, Debug, PartialEq, Eq)]
pub struct ContentType {
    pub ty: String,
    pub subtype: String,
    pub params: Option<Vec<(String, String)>>,
}

#[derive(Clone, Debug, PartialEq, Eq)]
pub struct ContentDisposition {
    pub ty: String,
    pub params: Option<Vec<(String, String)>>,
}

#[derive(Clone, Debug, PartialEq, Eq)]
pub enum ContentEncoding {
    SevenBit,
    EightBit,
    Binary,
    Base64,
    QuotedPrintable,
    Other(String),
}

#[derive(Debug, PartialEq, Eq)]
pub enum BodyExtension {
    Num(u32),
    Str(Option<String>),
    List(Vec<BodyExtension>),
}

#[derive(Clone, Debug, PartialEq, Eq)]
pub struct Envelope {
    pub date: Option<String>,
    pub subject: Option<String>,
    pub from: Option<Vec<Address>>,
    pub sender: Option<Vec<Address>>,
    pub reply_to: Option<Vec<Address>>,
    pub to: Option<Vec<Address>>,
    pub cc: Option<Vec<Address>>,
    pub bcc: Option<Vec<Address>>,
    pub in_reply_to: Option<String>,
    pub message_id: Option<String>,
}

#[derive(Clone, Debug, PartialEq, Eq)]
pub struct Address {
    pub name: Option<String>,
    pub adl: Option<String>,
    pub mailbox: Option<String>,
    pub host: Option<String>,
}

#[derive(Clone, Debug, Eq, PartialEq)]
pub enum Attribute {
    Body,
    Envelope,
    Flags,
    InternalDate,
    ModSeq,
    Rfc822,
    Rfc822Size,
    Rfc822Text,
    Uid,
}

#[derive(Clone, Copy, Debug, Eq, PartialEq)]
pub enum MessageSection {
    Header,
    Mime,
    Text,
}

#[derive(Clone, Debug, Eq, PartialEq)]
pub enum SectionPath {
    Full(MessageSection),
    Part(Vec<u32>, Option<MessageSection>),
}

#[derive(Clone, Debug, PartialEq, Eq)]
pub enum MailboxData {
    Exists(u32),
    Flags(Vec<MailboxFlag>),
    List { flags: Vec<String>, delimiter: Option<String>, name: String },
    Search(Vec<u32>),
    Status { mailbox: String, status: Vec<StatusAttribute> },
    Recent(u32),
    MetadataSolicited { mailbox: String, values: Vec<Metadata> },
    MetadataUnsolicited { mailbox: String, values: Vec<String> },
}

#[derive(Debug, Eq, PartialEq, Clone, Hash)]
pub enum MailboxFlag {
    Answered,
    Flagged,
    Deleted,
    Seen,
    Draft,
    Recent,
    Ext(String),
}

#[derive(Debug, Eq, PartialEq, Clone)]
pub struct Metadata {
    pub entry: String,
    pub value: Option<String>,
}

#[derive(Clone, Copy, Debug, Eq, PartialEq)]
pub enum StatusAttribute {
    HighestModSeq(u64),
    Messages(u32),
    Recent(u32),
    UidNext(u32),
    UidValidity(u32),
    Unseen(u32),
}

#[derive(Clone, Copy, Debug, Eq, PartialEq)]
/// The status word of a response; `OK` is written as on the wire.
pub enum Status {
    OK,
    No,
    Bad,
    PreAuth,
    Bye,
}

// ---------------------------------------------------------------------------------------------
// Models
// ---------------------------------------------------------------------------------------------

pub enum CapabilityModel {
    Imap4rev1,
    Auth(Seq<char>),
    Atom(Seq<char>),
}

pub enum ResponseCodeModel {
    Alert,
    BadCharset,
    Capabilities(Seq<CapabilityModel>),
    HighestModSeq(u64),
    Parse,
    PermanentFlags(Seq<Seq<char>>),
    ReadOnly,
    ReadWrite,
    TryCreate,
    UidNext(u32),
    UidValidity(u32),
    Unseen(u32),
    AppendUid(u32),
    CopyUid(u32),
    UidNotSticky,
    Other(Seq<char>, Option<Seq<char>>),
}

pub enum MailboxFlagModel {
    Answered,
    Flagged,
    Deleted,
    Seen,
    Draft,
    Recent,
    Ext(Seq<char>),
}

pub enum SectionPathModel {
    Full(MessageSection),
    Part(Seq<u32>, Option<MessageSection>),
}

pub struct AddressModel {
    pub name: Option<Seq<char>>,
    pub adl: Option<Seq<char>>,
    pub mailbox: Option<Seq<char>>,
    pub host: Option<Seq<char>>,
}

pub struct EnvelopeModel {
    pub date: Option<Seq<char>>,
    pub subject: Option<Seq<char>>,
    pub from: Option<Seq<AddressModel>>,
    pub sender: Option<Seq<AddressModel>>,
    pub reply_to: Option<Seq<AddressModel>>,
    pub to: Option<Seq<AddressModel>>,
    pub cc: Option<Seq<AddressModel>>,
    pub bcc: Option<Seq<AddressModel>>,
    pub in_reply_to: Option<Seq<char>>,
    pub message_id: Option<Seq<char>>,
}

pub enum AttributeValueModel {
    BodySection {
        section: Option<SectionPathModel>,
        index: Option<u32>,
        data: Option<Seq<u8>>,
    },
    BodyStructure,
    Envelope(EnvelopeModel),
    Flags(Seq<MailboxFlagModel>),
    InternalDate(DateTime),
    ModSeq(u64),
    Rfc822(Option<Seq<u8>>),
    Rfc822Header(Option<Seq<u8>>),
    Rfc822Size(u32),
    Rfc822Text(Option<Seq<u8>>),
    Uid(u32),
    Unparsed(Seq<char>),
}

pub enum MailboxDataModel {
    Exists(u32),
    Flags(Seq<MailboxFlagModel>),
    List { flags: Seq<Seq<char>>, delimiter: Option<Seq<char>>, name: Seq<char> },
    Search(Seq<u32>),
    Status { mailbox: Seq<char>, status: Seq<StatusAttribute> },
    Recent(u32),
    MetadataSolicited { mailbox: Seq<char> },
    MetadataUnsolicited { mailbox: Seq<char> },
}

pub enum ResponseModel {
    Capabilities(Seq<CapabilityModel>),
    Continue { code: Option<ResponseCodeModel>, information: Option<Seq<char>> },
    Done {
        tag: Seq<char>,
        status: Status,
        code: Option<ResponseCodeModel>,
        information: Option<Seq<char>>,
    },
    Data { status: Status, code: Option<ResponseCodeModel>, information: Option<Seq<char>> },
    Expunge(u32),
    Vanished { earlier: bool, uids: Seq<UidSetMember> },
    Fetch(u32, Seq<AttributeValueModel>),
    MailboxData(MailboxDataModel),
}

impl DeepView for Capability {
    type V = CapabilityModel;

    open spec fn deep_view(&self) -> CapabilityModel {
        match self {
            Capability::Imap4rev1 => CapabilityModel::Imap4rev1,
            Capability::Auth(s) => CapabilityModel::Auth(s@),
            Capability::Atom(s) => CapabilityModel::Atom(s@),
        }
    }
}

impl DeepView for ResponseCode {
    type V = ResponseCodeModel;

    open spec fn deep_view(&self) -> ResponseCodeModel {
        match self {
            ResponseCode::Alert => ResponseCodeModel::Alert,
            ResponseCode::BadCharset(_) => ResponseCodeModel::BadCharset,
            ResponseCode::Capabilities(c) => ResponseCodeModel::Capabilities(c.deep_view()),
            ResponseCode::HighestModSeq(n) => ResponseCodeModel::HighestModSeq(*n),
            ResponseCode::Parse => ResponseCodeModel::Parse,
            ResponseCode::PermanentFlags(f) => ResponseCodeModel::PermanentFlags(f.deep_view()),
            ResponseCode::ReadOnly => ResponseCodeModel::ReadOnly,
            ResponseCode::ReadWrite => ResponseCodeModel::ReadWrite,
            ResponseCode::TryCreate => ResponseCodeModel::TryCreate,
            ResponseCode::UidNext(n) => ResponseCodeModel::UidNext(*n),
            ResponseCode::UidValidity(n) => ResponseCodeModel::UidValidity(*n),
            ResponseCode::Unseen(n) => ResponseCodeModel::Unseen(*n),
            ResponseCode::AppendUid(n, _) => ResponseCodeModel::AppendUid(*n),
            ResponseCode::CopyUid(n, _, _) => ResponseCodeModel::CopyUid(*n),
            ResponseCode::UidNotSticky => ResponseCodeModel::UidNotSticky,
            ResponseCode::Other(a, b) => ResponseCodeModel::Other(a@, b.deep_view()),
        }
    }
}

impl DeepView for MailboxFlag {
    type V = MailboxFlagModel;

    open spec fn deep_view(&self) -> MailboxFlagModel {
        match self {
            MailboxFlag::Answered => MailboxFlagModel::Answered,
            MailboxFlag::Flagged => MailboxFlagModel::Flagged,
            MailboxFlag::Deleted => MailboxFlagModel::Deleted,
            MailboxFlag::Seen => MailboxFlagModel::Seen,
            MailboxFlag::Draft => MailboxFlagModel::Draft,
            MailboxFlag::Recent => MailboxFlagModel::Recent,
            MailboxFlag::Ext(s) => MailboxFlagModel::Ext(s@),
        }
    }
}

impl DeepView for SectionPath {
    type V = SectionPathModel;

    open spec fn deep_view(&self) -> SectionPathModel {
        match self {
            SectionPath::Full(m) => SectionPathModel::Full(*m),
            SectionPath::Part(p, m) => SectionPathModel::Part(p@, *m),
        }
    }
}

impl DeepView for Address {
    type V = AddressModel;

    open spec fn deep_view(&self) -> AddressModel {
        AddressModel {
            name: self.name.deep_view(),
            adl: self.adl.deep_view(),
            mailbox: self.mailbox.deep_view(),
            host: self.host.deep_view(),
        }
    }
}

impl DeepView for Envelope {
    type V = EnvelopeModel;

    open spec fn deep_view(&self) -> EnvelopeModel {
        EnvelopeModel {
            date: self.date.deep_view(),
            subject: self.subject.deep_view(),
            from: self.from.deep_view(),
            sender: self.sender.deep_view(),
            reply_to: self.reply_to.deep_view(),
            to: self.to.deep_view(),
            cc: self.cc.deep_view(),
            bcc: self.bcc.deep_view(),
            in_reply_to: self.in_reply_to.deep_view(),
            message_id: self.message_id.deep_view(),
        }
    }
}

impl DeepView for AttributeValue {
    type V = AttributeValueModel;

    open spec fn deep_view(&self) -> AttributeValueModel {
        match self {
            AttributeValue::BodySection(b) => AttributeValueModel::BodySection {
                section: b.section.deep_view(),
                index: b.index,
                data: b.data.deep_view(),
            },
            AttributeValue::BodyStructure(_) => AttributeValueModel::BodyStructure,
            AttributeValue::Envelope(e) => AttributeValueModel::Envelope(e.deep_view()),
            AttributeValue::Flags(f) => AttributeValueModel::Flags(f.deep_view()),
            AttributeValue::InternalDate(d) => AttributeValueModel::InternalDate(*d),
            AttributeValue::ModSeq(n) => AttributeValueModel::ModSeq(*n),
            AttributeValue::Rfc822(d) => AttributeValueModel::Rfc822(d.deep_view()),
            AttributeValue::Rfc822Header(d) => AttributeValueModel::Rfc822Header(d.deep_view()),
            AttributeValue::Rfc822Size(n) => AttributeValueModel::Rfc822Size(*n),
            AttributeValue::Rfc822Text(d) => AttributeValueModel::Rfc822Text(d.deep_view()),
            AttributeValue::Uid(n) => AttributeValueModel::Uid(*n),
            AttributeValue::Unparsed(s) => AttributeValueModel::Unparsed(s@),
        }
    }
}

impl DeepView for MailboxData {
    type V = MailboxDataModel;

    open spec fn deep_view(&self) -> MailboxDataModel {
        match self {
            MailboxData::Exists(n) => MailboxDataModel::Exists(*n),
            MailboxData::Flags(f) => MailboxDataModel::Flags(f.deep_view()),
            MailboxData::List { flags, delimiter, name } => MailboxDataModel::List {
                flags: flags.deep_view(),
                delimiter: delimiter.deep_view(),
                name: name@,
            },
            MailboxData::Search(u) => MailboxDataModel::Search(u@),
            MailboxData::Status { mailbox, status } => MailboxDataModel::Status {
                mailbox: mailbox@,
                status: status@,
            },
            MailboxData::Recent(n) => MailboxDataModel::Recent(*n),
            MailboxData::MetadataSolicited { mailbox, .. } => {
                MailboxDataModel::MetadataSolicited { mailbox: mailbox@ }
            },
            MailboxData::MetadataUnsolicited { mailbox, .. } => {
                MailboxDataModel::MetadataUnsolicited { mailbox: mailbox@ }
            },
        }
    }
}

impl DeepView for Response {
    type V = ResponseModel;

    open spec fn deep_view(&self) -> ResponseModel {
        match self {
            Response::Capabilities(c) => ResponseModel::Capabilities(c.deep_view()),
            Response::Continue { code, information } => ResponseModel::Continue {
                code: code.deep_view(),
                information: information.deep_view(),
            },
            Response::Done(d) => ResponseModel::Done {
                tag: d.tag@,
                status: d.status,
                code: d.code.deep_view(),
                information: d.information.deep_view(),
            },
            Response::Data(d) => ResponseModel::Data {
                status: d.status,
                code: d.code.deep_view(),
                information: d.information.deep_view(),
            },
            Response::Expunge(n) => ResponseModel::Expunge(*n),
            Response::Vanished { earlier, uids } => ResponseModel::Vanished {
                earlier: *earlier,
                uids: uids@,
            },
            Response::Fetch(n, a) => ResponseModel::Fetch(*n, a.deep_view()),
            Response::MailboxData(m) => ResponseModel::MailboxData(m.deep_view()),
        }
    }
}

} // verus!
