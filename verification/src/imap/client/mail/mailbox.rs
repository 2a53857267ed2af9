//! What a SELECT tells of a mailbox.
use vstd::prelude::*;
use crate::imap::mailbox::uid::Uid as NonZeroUid;
use crate::text::{decimal, decimal_string};
use vstd::std_specs::convert::FromSpecImpl;
use crate::imap::mailbox::uid_validity::UidValidity;

verus! {

/// A message identifier as a number, where zero stands for none.
#[derive(Debug, PartialEq, Eq, Structural, Clone, Copy)]
pub struct Uid(Option<u32>);

impl View for Uid {
    type V = u32;

    /// The number; zero when there is no identifier.
    closed spec fn view(&self) -> u32 {
        match self.0 {
            Some(n) => n,
            None => 0,
        }
    }
}

/// The identifier with number `value`, as a spec value; none for zero.
pub closed spec fn uid_of(value: u32) -> Uid {
    if value == 0 {
        Uid(None)
    } else {
        Uid(Some(value))
    }
}

pub broadcast proof fn lemma_uid_of_view(value: u32)
    ensures
        #[trigger] uid_of(value)@ == value,
{
}

impl Uid {
    #[verifier::type_invariant]
    spec fn never_zero_inside(self) -> bool {
        self.0 != Some(0u32)
    }

    /// The identifier with number `value`; none for zero.
    pub fn new(value: u32) -> (r: Uid)
        ensures
            r == uid_of(value),
            r@ == value,
    {
        if value == 0 {
            Uid(None)
        } else {
            Uid(Some(value))
        }
    }

    /// Whether there is an identifier.
    pub fn is_some(&self) -> (r: bool)
        ensures
            r == (self@ != 0),
    {
        proof {
            use_type_invariant(self);
        }
        self.0.is_some()
    }

    /// The decimal notation of the number; `0` for none.
    pub fn to_string(&self) -> (r: String)
        ensures
            r@ == decimal(self@ as nat),
    {
        match self.0 {
            Some(n) => decimal_string(n as u64),
            None => decimal_string(0),
        }
    }
}

impl From<u32> for Uid {
    fn from(value: u32) -> (r: Uid) {
        Uid::new(value)
    }
}

impl FromSpecImpl<u32> for Uid {
    open spec fn obeys_from_spec() -> bool {
        true
    }

    open spec fn from_spec(value: u32) -> Uid {
        uid_of(value)
    }
}

impl From<Uid> for u32 {
    fn from(value: Uid) -> (r: u32) {
        match value.0 {
            Some(n) => n,
            None => 0,
        }
    }
}

impl FromSpecImpl<Uid> for u32 {
    open spec fn obeys_from_spec() -> bool {
        true
    }

    open spec fn from_spec(value: Uid) -> u32 {
        value@
    }
}

/// The texts of a list of strings.
pub open spec fn texts(v: Seq<String>) -> Seq<Seq<char>> {
    v.map_values(|s: String| s@)
}

/// A selected mailbox, as plain values.
pub struct MailboxView {
    pub name: Seq<char>,
    pub readonly: bool,
    pub flags: Seq<Seq<char>>,
    pub exists: u32,
    pub recent: u32,
    pub unseen: Option<u32>,
    pub permanent_flags: Seq<Seq<char>>,
    pub uid_validity: u32,
    pub uid_next: u32,
    pub highest_modseq: u64,
}

/// A selected mailbox, as the server described it.
#[derive(Debug)]
pub struct Mailbox {
    name: String,
    readonly: bool,
    flags: Vec<String>,
    exists: u32,
    recent: u32,
    unseen: Option<u32>,
    permanent_flags: Vec<String>,
    uid_validity: UidValidity,
    uid_next: NonZeroUid,
    highest_modseq: u64,
}

impl View for Mailbox {
    type V = MailboxView;

    closed spec fn view(&self) -> MailboxView {
        MailboxView {
            name: self.name@,
            readonly: self.readonly,
            flags: texts(self.flags@),
            exists: self.exists,
            recent: self.recent,
            unseen: self.unseen,
            permanent_flags: texts(self.permanent_flags@),
            uid_validity: self.uid_validity@,
            uid_next: self.uid_next@,
            highest_modseq: self.highest_modseq,
        }
    }
}

impl Mailbox {
    #[verifier::type_invariant]
    spec fn modseq_nonzero(self) -> bool {
        self.highest_modseq != 0
    }

    pub fn name(&self) -> (r: &String)
        ensures
            r@ == self@.name,
    {
        &self.name
    }

    pub fn readonly(&self) -> (r: &bool)
        ensures
            *r == self@.readonly,
    {
        &self.readonly
    }

    pub fn flags(&self) -> (r: &Vec<String>)
        ensures
            texts(r@) == self@.flags,
    {
        &self.flags
    }

    /// The number of messages in the mailbox (the EXISTS count).
    pub fn exists_count(&self) -> (r: &u32)
        ensures
            *r == self@.exists,
    {
        &self.exists
    }

    pub fn recent(&self) -> (r: &u32)
        ensures
            *r == self@.recent,
    {
        &self.recent
    }

    pub fn unseen(&self) -> (r: &Option<u32>)
        ensures
            *r == self@.unseen,
    {
        &self.unseen
    }

    pub fn permanent_flags(&self) -> (r: &Vec<String>)
        ensures
            texts(r@) == self@.permanent_flags,
    {
        &self.permanent_flags
    }

    pub fn uid_validity(&self) -> (r: UidValidity)
        ensures
            r@ == self@.uid_validity,
    {
        self.uid_validity
    }

    pub fn uid_next(&self) -> (r: NonZeroUid)
        ensures
            r@ == self@.uid_next,
    {
        self.uid_next
    }

    /// The highest modification sequence of the mailbox; never zero.
    pub fn highest_modseq(&self) -> (r: u64)
        ensures
            r == self@.highest_modseq,
            r != 0,
    {
        proof {
            use_type_invariant(self);
        }
        self.highest_modseq
    }
}

/// The parts of a mailbox set so far, as plain values.
pub struct MailboxDraft {
    pub name: Option<Seq<char>>,
    pub readonly: Option<bool>,
    pub flags: Option<Seq<Seq<char>>>,
    pub exists: Option<u32>,
    pub recent: Option<u32>,
    pub unseen: Option<u32>,
    pub permanent_flags: Option<Seq<Seq<char>>>,
    pub uid_validity: Option<u32>,
    pub uid_next: Option<u32>,
    pub highest_modseq: Option<u64>,
}

/// The name of the first part, in declaration order, that a draft lacks and
/// that has no default.
pub open spec fn first_missing(d: MailboxDraft) -> Option<Seq<char>> {
    if d.name is None {
        Some("name"@)
    } else if d.flags is None {
        Some("flags"@)
    } else if d.exists is None {
        Some("exists"@)
    } else if d.recent is None {
        Some("recent"@)
    } else if d.uid_validity is None {
        Some("uid_validity"@)
    } else if d.uid_next is None {
        Some("uid_next"@)
    } else if d.highest_modseq is None {
        Some("highest_modseq"@)
    } else {
        None
    }
}

/// The mailbox a complete draft describes; parts not set take their
/// defaults: not read-only, no unseen message, no permanent flags.
pub open spec fn built(d: MailboxDraft) -> MailboxView {
    MailboxView {
        name: d.name->0,
        readonly: match d.readonly {
            Some(b) => b,
            None => false,
        },
        flags: d.flags->0,
        exists: d.exists->0,
        recent: d.recent->0,
        unseen: d.unseen,
        permanent_flags: match d.permanent_flags {
            Some(p) => p,
            None => Seq::empty(),
        },
        uid_validity: d.uid_validity->0,
        uid_next: d.uid_next->0,
        highest_modseq: d.highest_modseq->0,
    }
}

/// A part of a mailbox that `build` found missing.
#[derive(Debug)]
pub struct UninitializedFieldError {
    pub field: &'static str,
}

/// Collects the parts of a `Mailbox` as they arrive.
#[derive(Debug)]
pub struct MailboxBuilder {
    name: Option<String>,
    readonly: Option<bool>,
    flags: Option<Vec<String>>,
    exists: Option<u32>,
    recent: Option<u32>,
    unseen: Option<u32>,
    permanent_flags: Option<Vec<String>>,
    uid_validity: Option<UidValidity>,
    uid_next: Option<NonZeroUid>,
    highest_modseq: Option<u64>,
}

impl View for MailboxBuilder {
    type V = MailboxDraft;

    closed spec fn view(&self) -> MailboxDraft {
        MailboxDraft {
            name: match self.name {
                Some(s) => Some(s@),
                None => None,
            },
            readonly: self.readonly,
            flags: match self.flags {
                Some(v) => Some(texts(v@)),
                None => None,
            },
            exists: self.exists,
            recent: self.recent,
            unseen: self.unseen,
            permanent_flags: match self.permanent_flags {
                Some(v) => Some(texts(v@)),
                None => None,
            },
            uid_validity: match self.uid_validity {
                Some(u) => Some(u@),
                None => None,
            },
            uid_next: match self.uid_next {
                Some(u) => Some(u@),
                None => None,
            },
            highest_modseq: self.highest_modseq,
        }
    }
}

impl Default for MailboxBuilder {
    fn default() -> (r: Self)
        ensures
            r@ == (MailboxDraft {
                name: None,
                readonly: None,
                flags: None,
                exists: None,
                recent: None,
                unseen: None,
                permanent_flags: None,
                uid_validity: None,
                uid_next: None,
                highest_modseq: None,
            }),
    {
        MailboxBuilder {
            name: None,
            readonly: None,
            flags: None,
            exists: None,
            recent: None,
            unseen: None,
            permanent_flags: None,
            uid_validity: None,
            uid_next: None,
            highest_modseq: None,
        }
    }
}

impl MailboxBuilder {
    #[verifier::type_invariant]
    spec fn modseq_nonzero(self) -> bool {
        self.highest_modseq != Some(0u64)
    }

    /// Sets the name.
    pub fn name(&mut self, value: String)
        ensures
            final(self)@ == (MailboxDraft { name: Some(value@), ..old(self)@ }),
    {
        proof {
            use_type_invariant(&*self);
        }
        self.name = Some(value);
    }

    /// Sets whether the mailbox is read-only.
    pub fn readonly(&mut self, value: bool)
        ensures
            final(self)@ == (MailboxDraft { readonly: Some(value), ..old(self)@ }),
    {
        proof {
            use_type_invariant(&*self);
        }
        self.readonly = Some(value);
    }

    /// Sets the flags defined in the mailbox.
    pub fn flags(&mut self, value: Vec<String>)
        ensures
            final(self)@ == (MailboxDraft { flags: Some(texts(value@)), ..old(self)@ }),
    {
        proof {
            use_type_invariant(&*self);
        }
        self.flags = Some(value);
    }

    /// Sets the number of messages.
    pub fn exists_count(&mut self, value: u32)
        ensures
            final(self)@ == (MailboxDraft { exists: Some(value), ..old(self)@ }),
    {
        proof {
            use_type_invariant(&*self);
        }
        self.exists = Some(value);
    }

    /// Sets the number of recent messages.
    pub fn recent(&mut self, value: u32)
        ensures
            final(self)@ == (MailboxDraft { recent: Some(value), ..old(self)@ }),
    {
        proof {
            use_type_invariant(&*self);
        }
        self.recent = Some(value);
    }

    /// Sets the number of the first unseen message.
    pub fn unseen(&mut self, value: u32)
        ensures
            final(self)@ == (MailboxDraft { unseen: Some(value), ..old(self)@ }),
    {
        proof {
            use_type_invariant(&*self);
        }
        self.unseen = Some(value);
    }

    /// Sets the flags that can be changed permanently.
    pub fn permanent_flags(&mut self, value: Vec<String>)
        ensures
            final(self)@ == (MailboxDraft { permanent_flags: Some(texts(value@)), ..old(self)@ }),
    {
        proof {
            use_type_invariant(&*self);
        }
        self.permanent_flags = Some(value);
    }

    /// Sets the UIDVALIDITY.
    pub fn uid_validity(&mut self, value: UidValidity)
        ensures
            final(self)@ == (MailboxDraft { uid_validity: Some(value@), ..old(self)@ }),
    {
        proof {
            use_type_invariant(&*self);
        }
        self.uid_validity = Some(value);
    }

    /// Sets the next unique identifier.
    pub fn uid_next(&mut self, value: NonZeroUid)
        ensures
            final(self)@ == (MailboxDraft { uid_next: Some(value@), ..old(self)@ }),
    {
        proof {
            use_type_invariant(&*self);
        }
        self.uid_next = Some(value);
    }

    /// Sets the highest modification sequence, which is never zero.
    pub fn highest_modseq(&mut self, value: u64)
        requires
            value != 0,
        ensures
            final(self)@ == (MailboxDraft { highest_modseq: Some(value), ..old(self)@ }),
    {
        proof {
            use_type_invariant(&*self);
        }
        self.highest_modseq = Some(value);
    }

    /// The mailbox, if every part without a default has been set; else the
    /// name of the first part missing.
    pub fn build(self) -> (r: Result<Mailbox, UninitializedFieldError>)
        ensures
            match r {
                Ok(m) => first_missing(self@) is None && m@ == built(self@),
                Err(e) => first_missing(self@) == Some(e.field@),
            },
    {
        proof {
            use_type_invariant(&self);
            reveal_strlit("name");
            reveal_strlit("flags");
            reveal_strlit("exists");
            reveal_strlit("recent");
            reveal_strlit("uid_validity");
            reveal_strlit("uid_next");
            reveal_strlit("highest_modseq");
        }
        let MailboxBuilder {
            name,
            readonly,
            flags,
            exists,
            recent,
            unseen,
            permanent_flags,
            uid_validity,
            uid_next,
            highest_modseq,
        } = self;
        let name = match name {
            Some(v) => v,
            None => { return Err(UninitializedFieldError { field: "name" }); },
        };
        let flags = match flags {
            Some(v) => v,
            None => { return Err(UninitializedFieldError { field: "flags" }); },
        };
        let exists = match exists {
            Some(v) => v,
            None => { return Err(UninitializedFieldError { field: "exists" }); },
        };
        let recent = match recent {
            Some(v) => v,
            None => { return Err(UninitializedFieldError { field: "recent" }); },
        };
        let uid_validity = match uid_validity {
            Some(v) => v,
            None => { return Err(UninitializedFieldError { field: "uid_validity" }); },
        };
        let uid_next = match uid_next {
            Some(v) => v,
            None => { return Err(UninitializedFieldError { field: "uid_next" }); },
        };
        let highest_modseq = match highest_modseq {
            Some(v) => v,
            None => { return Err(UninitializedFieldError { field: "highest_modseq" }); },
        };
        let readonly = match readonly {
            Some(b) => b,
            None => false,
        };
        let permanent_flags = match permanent_flags {
            Some(v) => v,
            None => {
                let v: Vec<String> = Vec::new();
                assert(texts(v@) =~= Seq::<Seq<char>>::empty());
                v
            },
        };
        let m = Mailbox {
            name,
            readonly,
            flags,
            exists,
            recent,
            unseen,
            permanent_flags,
            uid_validity,
            uid_next,
            highest_modseq,
        };
        Ok(m)
    }
}

} // verus!
