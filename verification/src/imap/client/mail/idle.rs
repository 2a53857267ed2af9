//! Waiting in IDLE for the mailbox to change.
use vstd::prelude::*;
use crate::imap::response::{MailboxDatum, Response};

verus! {

/// What the server told while the client waited: the last EXISTS, EXPUNGE
/// and RECENT numbers.
#[derive(Debug)]
pub struct IdleData {
    exists: u32,
    expunge: u32,
    recent: u32,
}

impl View for IdleData {
    type V = (u32, u32, u32);

    /// The EXISTS, EXPUNGE and RECENT numbers.
    closed spec fn view(&self) -> (u32, u32, u32) {
        (self.exists, self.expunge, self.recent)
    }
}

impl Default for IdleData {
    fn default() -> (r: Self)
        ensures
            r@ == (0u32, 0u32, 0u32),
    {
        IdleData { exists: 0, expunge: 0, recent: 0 }
    }
}

/// What a response during IDLE changes in the numbers.
pub open spec fn idle_update(d: (u32, u32, u32), response: Response) -> (u32, u32, u32) {
    match response {
        Response::Expunge(n) => (d.0, n, d.2),
        Response::MailboxData(MailboxDatum::Exists(n)) => (n, d.1, d.2),
        Response::MailboxData(MailboxDatum::Recent(n)) => (d.0, d.1, n),
        _ => d,
    }
}

impl IdleData {
    /// The number of messages the server last reported.
    pub fn exists_count(&self) -> (r: u32)
        ensures
            r == self@.0,
    {
        self.exists
    }

    /// The message number the server last reported removed.
    pub fn expunge(&self) -> (r: u32)
        ensures
            r == self@.1,
    {
        self.expunge
    }

    /// The number of recent messages the server last reported.
    pub fn recent(&self) -> (r: u32)
        ensures
            r == self@.2,
    {
        self.recent
    }

    /// Takes in a response received during IDLE; says whether the client
    /// should end the wait (send DONE), which a new EXISTS number calls for.
    pub fn take_response(&mut self, response: &Response) -> (r: bool)
        ensures
            final(self)@ == idle_update(old(self)@, *response),
            r == response matches Response::MailboxData(MailboxDatum::Exists(_)),
    {
        match response {
            Response::Expunge(n) => {
                self.expunge = *n;
                false
            },
            Response::MailboxData(MailboxDatum::Exists(n)) => {
                self.exists = *n;
                true
            },
            Response::MailboxData(MailboxDatum::Recent(n)) => {
                self.recent = *n;
                false
            },
            _ => false,
        }
    }
}

} // verus!
