//! What the client reads of the responses of an IMAP server.
//!
//! Each type holds, as plain values, the parts of a parsed server response
//! that the client's decisions depend on; parts no decision reads are
//! summarised by an `Other` variant.
use vstd::prelude::*;
use core::ops::RangeInclusive;

verus! {

/// A capability that a server announces.
#[derive(Debug)]
pub enum ServerCapability {
    Imap4rev1,
    /// An `AUTH=` capability, with the mechanism's name.
    Auth(String),
    /// Any other capability, by name.
    Atom(String),
}

/// The status of a status response.
#[derive(Debug, PartialEq, Eq, Structural, Clone, Copy)]
pub enum ResponseStatus {
    Okay,
    No,
    Bad,
    PreAuth,
    Bye,
}

/// A member of a set of identifiers: an inclusive range or a single one.
#[derive(Debug, PartialEq, Eq, Structural, Clone, Copy)]
pub enum UidSetMember {
    UidRange(u32, u32),
    Uid(u32),
}

/// The code in square brackets of a status response.
#[derive(Debug)]
pub enum ResponseCode {
    Capabilities(Vec<ServerCapability>),
    HighestModSeq(u64),
    PermanentFlags(Vec<String>),
    ReadOnly,
    ReadWrite,
    UidNext(u32),
    UidValidity(u32),
    Unseen(u32),
    AppendUid(u32, Vec<UidSetMember>),
    Other,
}

/// Data about the selected mailbox.
#[derive(Debug)]
pub enum MailboxDatum {
    Exists(u32),
    Flags(Vec<String>),
    Recent(u32),
    Other,
}

/// An attribute of a message in a FETCH response.
#[derive(Debug)]
pub enum AttributeValue {
    BodySection { data: Option<Vec<u8>> },
    Flags(Vec<String>),
    ModSeq(u64),
    /// The whole message, if the server sent it.
    Rfc822(Option<Vec<u8>>),
    Uid(u32),
    Other,
}

/// A response of the server.
#[derive(Debug)]
pub enum Response {
    Capabilities(Vec<ServerCapability>),
    Continue { information: Option<String> },
    /// The tagged status response that completes a command.
    Done {
        tag: String,
        status: ResponseStatus,
        code: Option<ResponseCode>,
        information: Option<String>,
    },
    /// An untagged status response.
    Data { status: ResponseStatus, code: Option<ResponseCode>, information: Option<String> },
    Expunge(u32),
    /// Identifiers of removed messages, as inclusive ranges.
    Vanished { earlier: bool, uids: Vec<RangeInclusive<u32>> },
    Fetch(u32, Vec<AttributeValue>),
    MailboxData(MailboxDatum),
    /// A quota, access-control, or identification response.
    Other,
}

} // verus!
