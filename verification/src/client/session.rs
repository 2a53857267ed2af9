//! A client session: the mailbox it has selected.
use vstd::prelude::*;
use crate::imap::client::mail::select::{
    is_unacceptable_select_response, select_update, take_select_response, uid_update,
    SelectProgress,
};
pub use crate::imap::client::mail::select::SelectError;
use crate::imap::client::mailbox::{
    built, first_missing, Mailbox, MailboxBuilder, MailboxDraft, MailboxView, UidBuilder,
};
use crate::imap::response::{Response, ResponseStatus};

verus! {

/// A session, as far as its selected mailbox goes.
#[derive(Debug)]
pub struct Session {
    selected_mailbox: Option<Mailbox>,
}

/// A draft with no part set.
pub open spec fn empty_draft() -> MailboxDraft {
    MailboxDraft {
        name: None,
        readonly: None,
        flags: None,
        exists: None,
        recent: None,
        unseen: None,
        permanent_flags: None,
        uid: None,
    }
}

impl View for Session {
    type V = Option<MailboxView>;

    /// The selected mailbox, if any.
    closed spec fn view(&self) -> Option<MailboxView> {
        match self.selected_mailbox {
            Some(m) => Some(m@),
            None => None,
        }
    }
}

impl Session {
    /// A session with no mailbox selected.
    pub fn new() -> (r: Self)
        ensures
            r@ is None,
    {
        Session { selected_mailbox: None }
    }

    /// The selected mailbox, if any.
    pub fn selected_mailbox(&self) -> (r: &Option<Mailbox>)
        ensures
            match *r {
                Some(m) => self@ == Some(m@),
                None => self@ is None,
            },
    {
        &self.selected_mailbox
    }

    /// Takes in one response to `SELECT mailbox`. On completion with OK the
    /// mailbox described so far becomes the selected one (and the builders
    /// start afresh); on NO no mailbox is selected any more and the error
    /// names the mailbox; other responses add to the description and leave
    /// the selection as it is. The description must be complete when the
    /// server completes the command.
    pub fn take_select_response(
        &mut self,
        builder: &mut MailboxBuilder,
        uid: &mut UidBuilder,
        mailbox: &str,
        response: Response,
    ) -> (r: Result<(), SelectError>)
        requires
            !is_unacceptable_select_response(response),
            response matches Response::Done { status: ResponseStatus::Okay, .. } ==> first_missing(
                old(builder)@,
            ) is None,
        ensures
            final(uid)@ == uid_update(old(uid)@, response),
            match response {
                Response::Done { status: ResponseStatus::Okay, .. } => {
                    &&& r is Ok
                    &&& final(self)@ == Some(built(select_update(old(builder)@, old(uid)@, response)))
                    &&& final(builder)@ == empty_draft()
                },
                Response::Done { status: ResponseStatus::No, .. } => {
                    &&& r matches Err(e) && e@ == mailbox@
                    &&& final(self)@ is None
                    &&& final(builder)@ == select_update(old(builder)@, old(uid)@, response)
                },
                _ => {
                    &&& r is Ok
                    &&& final(self)@ == old(self)@
                    &&& final(builder)@ == select_update(old(builder)@, old(uid)@, response)
                },
            },
    {
        match take_select_response(builder, uid, mailbox, response) {
            SelectProgress::Pending => Ok(()),
            SelectProgress::Selected => {
                let mut done = MailboxBuilder::default();
                core::mem::swap(&mut done, builder);
                match done.build() {
                    Ok(m) => {
                        self.selected_mailbox = Some(m);
                        Ok(())
                    },
                    Err(_) => Ok(()),
                }
            },
            SelectProgress::Refused(e) => {
                self.selected_mailbox = None;
                Err(e)
            },
        }
    }
}

} // verus!
