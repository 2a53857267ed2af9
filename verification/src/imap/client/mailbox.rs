//! What a SELECT tells of a mailbox, with its identifiers' validity and the
//! next identifier taken together.
use vstd::prelude::*;
use crate::imap::client::mail::mailbox::texts;

verus! {

/// The UIDVALIDITY of a mailbox and the identifier its next message gets.
#[derive(Debug, Clone, Copy, PartialEq, Eq, Structural)]
pub struct Uid {
    validity: u32,
    next: u32,
}

impl Uid {
    pub closed spec fn spec_validity(&self) -> u32 {
        self.validity
    }

    pub closed spec fn spec_next(&self) -> u32 {
        self.next
    }

    pub fn validity(&self) -> (r: &u32)
        ensures
            *r == self.spec_validity(),
    {
        &self.validity
    }

    pub fn next(&self) -> (r: &u32)
        ensures
            *r == self.spec_next(),
    {
        &self.next
    }
}

/// Collects the two parts of a `Uid`.
#[derive(Debug)]
pub struct UidBuilder {
    validity: Option<u32>,
    next: Option<u32>,
}

impl View for UidBuilder {
    type V = (Option<u32>, Option<u32>);

    /// The validity and the next identifier, as far as they are set.
    closed spec fn view(&self) -> (Option<u32>, Option<u32>) {
        (self.validity, self.next)
    }
}

impl Default for UidBuilder {
    fn default() -> (r: Self)
        ensures
            r@ == (None::<u32>, None::<u32>),
    {
        UidBuilder { validity: None, next: None }
    }
}

impl UidBuilder {
    pub fn validity(&mut self, value: u32)
        ensures
            final(self)@ == (Some(value), old(self)@.1),
    {
        self.validity = Some(value);
    }

    pub fn next(&mut self, value: u32)
        ensures
            final(self)@ == (old(self)@.0, Some(value)),
    {
        self.next = Some(value);
    }

    /// The pair, if both parts are set.
    pub fn build(&self) -> (r: Option<Uid>)
        ensures
            match r {
                Some(u) => self@.0 == Some(u.spec_validity()) && self@.1 == Some(u.spec_next()),
                None => self@.0 is None || self@.1 is None,
            },
    {
        match (self.validity, self.next) {
            (Some(validity), Some(next)) => Some(Uid { validity, next }),
            _ => None,
        }
    }
}

/// A selected mailbox, as plain values.
pub struct MailboxView {
    pub name: Seq<char>,
    pub readonly: bool,
    pub flags: Seq<Seq<char>>,
    pub exists: u32,
    pub recent: u32,
    pub unseen: Option<u32>,
    pub permanent_flags: Seq<Seq<char>>,
    /// The validity and the next identifier, where the server sent both.
    pub uid: Option<(u32, u32)>,
}

/// A selected mailbox, as the server described it.
#[derive(Debug)]
pub struct Mailbox {
    name: String,
    readonly: bool,
    flags: Vec<String>,
    exists: u32,
    recent: u32,
    unseen: Option<u32>,
    permanent_flags: Vec<String>,
    uid: Option<Uid>,
}

/// The validity and next identifier of a pair, as plain values.
pub open spec fn uid_pair(u: Option<Uid>) -> Option<(u32, u32)> {
    match u {
        Some(u) => Some((u.spec_validity(), u.spec_next())),
        None => None,
    }
}

impl View for Mailbox {
    type V = MailboxView;

    closed spec fn view(&self) -> MailboxView {
        MailboxView {
            name: self.name@,
            readonly: self.readonly,
            flags: texts(self.flags@),
            exists: self.exists,
            recent: self.recent,
            unseen: self.unseen,
            permanent_flags: texts(self.permanent_flags@),
            uid: uid_pair(self.uid),
        }
    }
}

impl Mailbox {
    pub fn name(&self) -> (r: &String)
        ensures
            r@ == self@.name,
    {
        &self.name
    }

    pub fn readonly(&self) -> (r: &bool)
        ensures
            *r == self@.readonly,
    {
        &self.readonly
    }

    pub fn flags(&self) -> (r: &Vec<String>)
        ensures
            texts(r@) == self@.flags,
    {
        &self.flags
    }

    /// The number of messages in the mailbox (the EXISTS count).
    pub fn exists_count(&self) -> (r: &u32)
        ensures
            *r == self@.exists,
    {
        &self.exists
    }

    pub fn recent(&self) -> (r: &u32)
        ensures
            *r == self@.recent,
    {
        &self.recent
    }

    pub fn unseen(&self) -> (r: &Option<u32>)
        ensures
            *r == self@.unseen,
    {
        &self.unseen
    }

    pub fn permanent_flags(&self) -> (r: &Vec<String>)
        ensures
            texts(r@) == self@.permanent_flags,
    {
        &self.permanent_flags
    }

    pub fn uid(&self) -> (r: &Option<Uid>)
        ensures
            uid_pair(*r) == self@.uid,
    {
        &self.uid
    }
}

/// The parts of a mailbox set so far, as plain values.
pub struct MailboxDraft {
    pub name: Option<Seq<char>>,
    pub readonly: Option<bool>,
    pub flags: Option<Seq<Seq<char>>>,
    pub exists: Option<u32>,
    pub recent: Option<u32>,
    pub unseen: Option<u32>,
    pub permanent_flags: Option<Seq<Seq<char>>>,
    pub uid: Option<(u32, u32)>,
}

/// The name of the first part, in declaration order, that a draft lacks and
/// that has no default.
pub open spec fn first_missing(d: MailboxDraft) -> Option<Seq<char>> {
    if d.name is None {
        Some("name"@)
    } else if d.flags is None {
        Some("flags"@)
    } else if d.exists is None {
        Some("exists"@)
    } else if d.recent is None {
        Some("recent"@)
    } else {
        None
    }
}

/// The mailbox a complete draft describes; parts not set take their
/// defaults: not read-only, no unseen message, no permanent flags, no
/// identifier pair.
pub open spec fn built(d: MailboxDraft) -> MailboxView {
    MailboxView {
        name: d.name->0,
        readonly: match d.readonly {
            Some(b) => b,
            None => false,
        },
        flags: d.flags->0,
        exists: d.exists->0,
        recent: d.recent->0,
        unseen: d.unseen,
        permanent_flags: match d.permanent_flags {
            Some(p) => p,
            None => Seq::empty(),
        },
        uid: d.uid,
    }
}

/// A part of a mailbox that `build` found missing.
#[derive(Debug)]
pub struct UninitializedFieldError {
    pub field: &'static str,
}

/// Collects the parts of a `Mailbox` as they arrive.
#[derive(Debug)]
pub struct MailboxBuilder {
    name: Option<String>,
    readonly: Option<bool>,
    flags: Option<Vec<String>>,
    exists: Option<u32>,
    recent: Option<u32>,
    unseen: Option<u32>,
    permanent_flags: Option<Vec<String>>,
    uid: Option<Uid>,
}

impl View for MailboxBuilder {
    type V = MailboxDraft;

    closed spec fn view(&self) -> MailboxDraft {
        MailboxDraft {
            name: match self.name {
                Some(s) => Some(s@),
                None => None,
            },
            readonly: self.readonly,
            flags: match self.flags {
                Some(v) => Some(texts(v@)),
                None => None,
            },
            exists: self.exists,
            recent: self.recent,
            unseen: self.unseen,
            permanent_flags: match self.permanent_flags {
                Some(v) => Some(texts(v@)),
                None => None,
            },
            uid: uid_pair(self.uid),
        }
    }
}

impl Default for MailboxBuilder {
    fn default() -> (r: Self)
        ensures
            r@ == (MailboxDraft {
                name: None,
                readonly: None,
                flags: None,
                exists: None,
                recent: None,
                unseen: None,
                permanent_flags: None,
                uid: None,
            }),
    {
        MailboxBuilder {
            name: None,
            readonly: None,
            flags: None,
            exists: None,
            recent: None,
            unseen: None,
            permanent_flags: None,
            uid: None,
        }
    }
}

impl MailboxBuilder {
    /// Sets the name.
    pub fn name(&mut self, value: String)
        ensures
            final(self)@ == (MailboxDraft { name: Some(value@), ..old(self)@ }),
    {
        self.name = Some(value);
    }

    /// Sets whether the mailbox is read-only.
    pub fn readonly(&mut self, value: bool)
        ensures
            final(self)@ == (MailboxDraft { readonly: Some(value), ..old(self)@ }),
    {
        self.readonly = Some(value);
    }

    /// Sets the flags defined in the mailbox.
    pub fn flags(&mut self, value: Vec<String>)
        ensures
            final(self)@ == (MailboxDraft { flags: Some(texts(value@)), ..old(self)@ }),
    {
        self.flags = Some(value);
    }

    /// Sets the number of messages.
    pub fn exists_count(&mut self, value: u32)
        ensures
            final(self)@ == (MailboxDraft { exists: Some(value), ..old(self)@ }),
    {
        self.exists = Some(value);
    }

    /// Sets the number of recent messages.
    pub fn recent(&mut self, value: u32)
        ensures
            final(self)@ == (MailboxDraft { recent: Some(value), ..old(self)@ }),
    {
        self.recent = Some(value);
    }

    /// Sets the number of the first unseen message.
    pub fn unseen(&mut self, value: u32)
        ensures
            final(self)@ == (MailboxDraft { unseen: Some(value), ..old(self)@ }),
    {
        self.unseen = Some(value);
    }

    /// Sets the flags that can be changed permanently.
    pub fn permanent_flags(&mut self, value: Vec<String>)
        ensures
            final(self)@ == (MailboxDraft { permanent_flags: Some(texts(value@)), ..old(self)@ }),
    {
        self.permanent_flags = Some(value);
    }

    /// Sets the identifier pair.
    pub fn uid(&mut self, value: Uid)
        ensures
            final(self)@ == (MailboxDraft { uid: Some((value.spec_validity(), value.spec_next())), ..old(self)@ }),
    {
        self.uid = Some(value);
    }

    /// Whether every part without a default has been set.
    pub fn is_complete(&self) -> (r: bool)
        ensures
            r == (first_missing(self@) is None),
    {
        self.name.is_some() && self.flags.is_some() && self.exists.is_some() && self.recent.is_some()
    }

    /// The mailbox, if every part without a default has been set; else the
    /// name of the first part missing.
    pub fn build(self) -> (r: Result<Mailbox, UninitializedFieldError>)
        ensures
            match r {
                Ok(m) => first_missing(self@) is None && m@ == built(self@),
                Err(e) => first_missing(self@) == Some(e.field@),
            },
    {
        proof {
            reveal_strlit("name");
            reveal_strlit("flags");
            reveal_strlit("exists");
            reveal_strlit("recent");
        }
        let MailboxBuilder { name, readonly, flags, exists, recent, unseen, permanent_flags, uid } =
            self;
        let name = match name {
            Some(v) => v,
            None => { return Err(UninitializedFieldError { field: "name" }); },
        };
        let flags = match flags {
            Some(v) => v,
            None => { return Err(UninitializedFieldError { field: "flags" }); },
        };
        let exists = match exists {
            Some(v) => v,
            None => { return Err(UninitializedFieldError { field: "exists" }); },
        };
        let recent = match recent {
            Some(v) => v,
            None => { return Err(UninitializedFieldError { field: "recent" }); },
        };
        let readonly = match readonly {
            Some(b) => b,
            None => false,
        };
        let permanent_flags = match permanent_flags {
            Some(v) => v,
            None => {
                let v: Vec<String> = Vec::new();
                assert(texts(v@) =~= Seq::<Seq<char>>::empty());
                v
            },
        };
        Ok(Mailbox { name, readonly, flags, exists, recent, unseen, permanent_flags, uid })
    }
}

} // verus!
