//! What the server tells of a message.
use vstd::prelude::*;
use crate::imap::client::mail::mailbox::texts;
use crate::imap::mailbox::modseq::ModSeq;
use crate::imap::mailbox::uid::Uid;

verus! {

/// A message's identifier, flags and modification sequence, as plain
/// values.
pub struct MetadataView {
    pub uid: u32,
    pub flags: Seq<Seq<char>>,
    pub modseq: u64,
}

/// A message's identifier, flags (by name, as the server wrote them) and
/// modification sequence.
#[derive(Debug)]
pub struct RemoteMailMetadata {
    uid: Uid,
    flags: Vec<String>,
    modseq: ModSeq,
}

impl View for RemoteMailMetadata {
    type V = MetadataView;

    closed spec fn view(&self) -> MetadataView {
        MetadataView { uid: self.uid@, flags: texts(self.flags@), modseq: self.modseq@ }
    }
}

impl RemoteMailMetadata {
    pub fn new(uid: Uid, flags: Vec<String>, modseq: ModSeq) -> (r: Self)
        ensures
            r@ == (MetadataView { uid: uid@, flags: texts(flags@), modseq: modseq@ }),
    {
        RemoteMailMetadata { uid, flags, modseq }
    }

    pub fn modseq(&self) -> (r: ModSeq)
        ensures
            r@ == self@.modseq,
    {
        self.modseq
    }

    pub fn uid(&self) -> (r: Uid)
        ensures
            r@ == self@.uid,
    {
        self.uid
    }

    pub fn flags(&self) -> (r: &Vec<String>)
        ensures
            texts(r@) == self@.flags,
    {
        &self.flags
    }
}

/// A part of a message's metadata that `build` found missing.
#[derive(Debug)]
pub struct UninitializedFieldError {
    pub field: &'static str,
}

/// The parts of a message's metadata set so far, as plain values.
pub struct MetadataDraft {
    pub uid: Option<u32>,
    pub flags: Option<Seq<Seq<char>>>,
    pub modseq: Option<u64>,
}

/// The name of the first part, in declaration order, that a draft lacks.
pub open spec fn first_missing(d: MetadataDraft) -> Option<Seq<char>> {
    if d.uid is None {
        Some("uid"@)
    } else if d.flags is None {
        Some("flags"@)
    } else if d.modseq is None {
        Some("modseq"@)
    } else {
        None
    }
}

/// Collects the parts of a `RemoteMailMetadata` as they arrive.
#[derive(Debug)]
pub struct RemoteMailMetadataBuilder {
    uid: Option<Uid>,
    flags: Option<Vec<String>>,
    modseq: Option<ModSeq>,
}

impl View for RemoteMailMetadataBuilder {
    type V = MetadataDraft;

    closed spec fn view(&self) -> MetadataDraft {
        MetadataDraft {
            uid: match self.uid {
                Some(u) => Some(u@),
                None => None,
            },
            flags: match self.flags {
                Some(v) => Some(texts(v@)),
                None => None,
            },
            modseq: match self.modseq {
                Some(m) => Some(m@),
                None => None,
            },
        }
    }
}

impl Default for RemoteMailMetadataBuilder {
    fn default() -> (r: Self)
        ensures
            r@ == (MetadataDraft { uid: None, flags: None, modseq: None }),
    {
        RemoteMailMetadataBuilder { uid: None, flags: None, modseq: None }
    }
}

impl RemoteMailMetadataBuilder {
    pub fn uid(&mut self, value: Uid)
        ensures
            final(self)@ == (MetadataDraft { uid: Some(value@), ..old(self)@ }),
    {
        self.uid = Some(value);
    }

    pub fn flags(&mut self, value: Vec<String>)
        ensures
            final(self)@ == (MetadataDraft { flags: Some(texts(value@)), ..old(self)@ }),
    {
        self.flags = Some(value);
    }

    pub fn modseq(&mut self, value: ModSeq)
        ensures
            final(self)@ == (MetadataDraft { modseq: Some(value@), ..old(self)@ }),
    {
        self.modseq = Some(value);
    }

    /// The metadata, if every part has been set; else the name of the first
    /// part missing.
    pub fn build(self) -> (r: Result<RemoteMailMetadata, UninitializedFieldError>)
        ensures
            match r {
                Ok(m) => first_missing(self@) is None && m@ == (MetadataView {
                    uid: self@.uid->0,
                    flags: self@.flags->0,
                    modseq: self@.modseq->0,
                }),
                Err(e) => first_missing(self@) == Some(e.field@),
            },
    {
        proof {
            reveal_strlit("uid");
            reveal_strlit("flags");
            reveal_strlit("modseq");
        }
        let RemoteMailMetadataBuilder { uid, flags, modseq } = self;
        let uid = match uid {
            Some(v) => v,
            None => { return Err(UninitializedFieldError { field: "uid" }); },
        };
        let flags = match flags {
            Some(v) => v,
            None => { return Err(UninitializedFieldError { field: "flags" }); },
        };
        let modseq = match modseq {
            Some(v) => v,
            None => { return Err(UninitializedFieldError { field: "modseq" }); },
        };
        Ok(RemoteMailMetadata { uid, flags, modseq })
    }
}

} // verus!
