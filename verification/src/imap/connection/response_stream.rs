//! The responses to one command: send it under a fresh tag, then hand out
//! responses until the one that carries the tag.
use vstd::prelude::*;
use crate::imap::connection::tag_generator::TagGenerator;
use crate::imap::tag_generator::next_tag_number;
use crate::text::hex4;

verus! {

/// How far the exchange for one command has come.
#[derive(Debug, Clone, Copy, PartialEq, Eq, Structural)]
pub enum ResponseStreamState {
    /// The command is not sent yet.
    Start,
    /// The command is being sent.
    Sending,
    /// Responses are being received.
    Receiving,
    /// The tagged response arrived; nothing more belongs to the command.
    Done,
}

/// What the stream waits for next.
#[derive(Debug, Clone, Copy, PartialEq, Eq, Structural)]
pub enum PollAction {
    /// That the connection can take the command.
    SinkReady,
    /// That the command has gone out.
    Flush,
    /// The next response.
    Response,
    /// Nothing: the stream has ended.
    End,
}

/// The exchange for one command.
#[derive(Debug)]
pub struct ResponseStream {
    state: ResponseStreamState,
    tag: String,
    command: String,
}

impl ResponseStream {
    pub closed spec fn spec_state(&self) -> ResponseStreamState {
        self.state
    }

    pub closed spec fn spec_tag(&self) -> Seq<char> {
        self.tag@
    }

    pub closed spec fn spec_command(&self) -> Seq<char> {
        self.command@
    }

    /// An exchange for `command`, not started yet.
    pub fn new(command: String) -> (r: Self)
        ensures
            r.spec_state() == ResponseStreamState::Start,
            r.spec_command() == command@,
    {
        ResponseStream { state: ResponseStreamState::Start, tag: String::new(), command }
    }

    /// The command.
    pub fn command(&self) -> (r: &String)
        ensures
            r@ == self.spec_command(),
    {
        &self.command
    }

    /// The tag under which the command went out.
    pub fn tag(&self) -> (r: &String)
        ensures
            r@ == self.spec_tag(),
    {
        &self.tag
    }

    /// What to wait for in the present state.
    pub fn poll_action(&self) -> (r: PollAction)
        ensures
            r == match self.spec_state() {
                ResponseStreamState::Start => PollAction::SinkReady,
                ResponseStreamState::Sending => PollAction::Flush,
                ResponseStreamState::Receiving => PollAction::Response,
                ResponseStreamState::Done => PollAction::End,
            },
    {
        match self.state {
            ResponseStreamState::Start => PollAction::SinkReady,
            ResponseStreamState::Sending => PollAction::Flush,
            ResponseStreamState::Receiving => PollAction::Response,
            ResponseStreamState::Done => PollAction::End,
        }
    }

    /// Once the connection can take the command: takes a fresh tag, under
    /// which the command is to go out.
    pub fn start_sending(&mut self, tags: &mut TagGenerator) -> (r: String)
        requires
            old(self).spec_state() == ResponseStreamState::Start,
        ensures
            final(tags)@ == next_tag_number(old(tags)@),
            r@ == hex4(final(tags)@),
            final(self).spec_tag() == r@,
            final(self).spec_state() == ResponseStreamState::Sending,
            final(self).spec_command() == old(self).spec_command(),
    {
        let tag = tags.next();
        self.tag = tag.clone();
        self.state = ResponseStreamState::Sending;
        tag
    }

    /// Once the command has gone out: responses come next.
    pub fn flushed(&mut self)
        requires
            old(self).spec_state() == ResponseStreamState::Sending,
        ensures
            final(self).spec_state() == ResponseStreamState::Receiving,
            final(self).spec_tag() == old(self).spec_tag(),
            final(self).spec_command() == old(self).spec_command(),
    {
        self.state = ResponseStreamState::Receiving;
    }

    /// Takes in a response, with its tag if it has one; the stream hands it
    /// out, and ends after a tagged one. A tagged response always carries
    /// the command's own tag.
    pub fn received(&mut self, response_tag: Option<&str>)
        requires
            old(self).spec_state() == ResponseStreamState::Receiving,
            response_tag matches Some(t) ==> t@ == old(self).spec_tag(),
        ensures
            final(self).spec_state() == if response_tag is Some {
                ResponseStreamState::Done
            } else {
                ResponseStreamState::Receiving
            },
            final(self).spec_tag() == old(self).spec_tag(),
            final(self).spec_command() == old(self).spec_command(),
    {
        if response_tag.is_some() {
            self.state = ResponseStreamState::Done;
        }
    }
}

} // verus!
