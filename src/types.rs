//! Further values of the protocol: requests as bytes, tags, client states, and the parts
//! of a body structure.

use vstd::prelude::*;
use vstd::utf8::encode_utf8;
use crate::response::{BodyExtension, ContentDisposition, ContentEncoding};

verus! {

/// A request as written: its tag and its command.
#[derive(Clone, Debug, Eq, PartialEq)]
pub struct Request(pub Vec<u8>, pub Vec<u8>);

/// The macros that stand for sets of message attributes.
#[derive(Copy, Clone, Debug, Eq, PartialEq)]
pub enum AttrMacro {
    All,
    Fast,
    Full,
}

/// The tag of a request.
#[derive(Clone, Debug, Eq, PartialEq)]
pub struct RequestId(pub String);

impl RequestId {
    /// The tag's UTF-8 bytes.
    pub fn as_bytes(&self) -> (r: &[u8])
        ensures
            r@ == encode_utf8(self.0@),
    {
        self.0.as_str().as_bytes()
    }
}

/// The states of an IMAP connection.
#[derive(Clone, Copy, Debug, Eq, PartialEq)]
pub enum State {
    NotAuthenticated,
    Authenticated,
    Selected,
    Logout,
}

pub struct BodyFields {
    pub param: Option<Vec<(String, String)>>,
    pub id: Option<String>,
    pub description: Option<String>,
    pub transfer_encoding: ContentEncoding,
    pub octets: u32,
}

pub struct BodyExt1Part {
    pub md5: Option<String>,
    pub disposition: Option<ContentDisposition>,
    pub language: Option<Vec<String>>,
    pub location: Option<String>,
    pub extension: Option<BodyExtension>,
}

pub struct BodyExtMPart {
    pub param: Option<Vec<(String, String)>>,
    pub disposition: Option<ContentDisposition>,
    pub language: Option<Vec<String>>,
    pub location: Option<String>,
    pub extension: Option<BodyExtension>,
}

} // verus!
