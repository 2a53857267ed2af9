//! The state of a selected mailbox that synchronisation depends on.
use vstd::prelude::*;
use super::modseq::ModSeq;
use super::uid_validity::UidValidity;

verus! {

#[derive(Debug)]
pub struct Mailbox {
    uid_validity: UidValidity,
    highest_modseq: ModSeq,
}

impl Mailbox {
    pub closed spec fn spec_uid_validity(&self) -> UidValidity {
        self.uid_validity
    }

    pub closed spec fn spec_highest_modseq(&self) -> ModSeq {
        self.highest_modseq
    }

    pub fn uid_validity(&self) -> (r: UidValidity)
        ensures
            r == self.spec_uid_validity(),
    {
        self.uid_validity
    }

    pub fn highest_modseq(&self) -> (r: ModSeq)
        ensures
            r == self.spec_highest_modseq(),
    {
        self.highest_modseq
    }
}

/// Collects the parts of a `Mailbox` as they arrive.
#[derive(Debug)]
pub struct MailboxBuilder {
    uid_validity: Option<UidValidity>,
    highest_modseq: Option<ModSeq>,
}

impl MailboxBuilder {
    pub closed spec fn spec_uid_validity(&self) -> Option<UidValidity> {
        self.uid_validity
    }

    pub closed spec fn spec_highest_modseq(&self) -> Option<ModSeq> {
        self.highest_modseq
    }

    /// A builder with no part set.
    pub fn new() -> (r: Self)
        ensures
            r.spec_uid_validity() is None,
            r.spec_highest_modseq() is None,
    {
        MailboxBuilder { uid_validity: None, highest_modseq: None }
    }

    /// The mailbox, once both parts are set.
    pub fn build(self) -> (r: Result<Mailbox, &'static str>)
        ensures
            match (self.spec_uid_validity(), self.spec_highest_modseq()) {
                (Some(v), Some(m)) => r matches Ok(mb) && mb.spec_uid_validity() == v
                    && mb.spec_highest_modseq() == m,
                _ => r == Err::<Mailbox, &'static str>("not all required fields present"),
            },
    {
        match (self.uid_validity, self.highest_modseq) {
            (Some(uid_validity), Some(highest_modseq)) => Ok(Mailbox { uid_validity, highest_modseq }),
            _ => Err("not all required fields present"),
        }
    }

    pub fn uid_validity(&mut self, uid_validity: UidValidity)
        ensures
            final(self).spec_uid_validity() == Some(uid_validity),
            final(self).spec_highest_modseq() == old(self).spec_highest_modseq(),
    {
        self.uid_validity = Some(uid_validity);
    }

    pub fn highest_modseq(&mut self, highest_modseq: ModSeq)
        ensures
            final(self).spec_highest_modseq() == Some(highest_modseq),
            final(self).spec_uid_validity() == old(self).spec_uid_validity(),
    {
        self.highest_modseq = Some(highest_modseq);
    }
}

impl Default for MailboxBuilder {
    fn default() -> (r: Self)
        ensures
            r.spec_uid_validity() is None,
            r.spec_highest_modseq() is None,
    {
        MailboxBuilder::new()
    }
}

} // verus!
