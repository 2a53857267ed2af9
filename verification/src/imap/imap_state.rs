//! What the client knows of the server's state.
use vstd::prelude::*;
use crate::imap::client::capability::{announced, announced_set, Capabilities, Capability};
use crate::imap::response::{Response, ResponseCode, ResponseStatus, ServerCapability};

verus! {

/// The capabilities that the server has announced so far.
#[derive(Debug)]
pub struct ImapState {
    capabilities: Capabilities,
}

impl View for ImapState {
    type V = Set<Capability>;

    closed spec fn view(&self) -> Set<Capability> {
        self.capabilities@
    }
}

impl Default for ImapState {
    fn default() -> (r: Self)
        ensures
            r@ == Set::<Capability>::empty(),
    {
        ImapState { capabilities: Capabilities::default() }
    }
}

/// The capabilities an untagged response announces: those of a
/// CAPABILITY response, or of the code of an untagged OK response.
pub open spec fn announced_capabilities(response: Response) -> Option<Seq<ServerCapability>> {
    match response {
        Response::Capabilities(items) => Some(items@),
        Response::Data { status: ResponseStatus::Okay, code: Some(ResponseCode::Capabilities(items)), .. } => Some(items@),
        _ => None,
    }
}

/// The untagged responses the state knows how to take in: capability
/// announcements, and the continuation and completion responses, which it
/// passes over.
pub open spec fn is_handled_response(response: Response) -> bool {
    ||| announced_capabilities(response) is Some
    ||| response is Continue
    ||| response is Done
}

impl ImapState {
    /// Takes in an untagged response: announced capabilities are recorded,
    /// other handled responses leave the state as it was.
    pub fn handle_untagged_response(&mut self, response: &Response)
        requires
            is_handled_response(*response),
        ensures
            final(self)@ == match announced_capabilities(*response) {
                Some(items) => old(self)@.union(announced_set(items)),
                None => old(self)@,
            },
    {
        match response {
            Response::Capabilities(items) => {
                self.update_capabilities(items.as_slice());
            },
            Response::Data { status: ResponseStatus::Okay, code: Some(ResponseCode::Capabilities(items)), .. } => {
                self.update_capabilities(items.as_slice());
            },
            _ => {},
        }
    }

    /// Records every known capability among `capabilities`; `AUTH=`
    /// announcements are passed over.
    pub fn update_capabilities(&mut self, capabilities: &[ServerCapability])
        ensures
            final(self)@ == old(self)@.union(announced_set(capabilities@)),
    {
        let mut k: usize = 0;
        while k < capabilities.len()
            invariant
                k <= capabilities@.len(),
                self.capabilities@ == old(self).capabilities@.union(announced_set(capabilities@.subrange(0, k as int))),
            decreases capabilities@.len() - k,
        {
            let ghost before = self.capabilities@;
            let capability = &capabilities[k];
            match capability {
                ServerCapability::Auth(_) => {},
                _ => self.capabilities.insert(capability),
            }
            proof {
                let done = capabilities@.subrange(0, k as int);
                let now = capabilities@.subrange(0, k + 1);
                assert forall|c: Capability| #[trigger] announced_set(now).contains(c) <==> (
                announced_set(done).contains(c) || announced(capabilities@[k as int]) == Some(c)) by {
                    if announced_set(done).contains(c) {
                        let i = choose|i: int| 0 <= i < done.len() && announced(#[trigger] done[i]) == Some(c);
                        assert(now[i] == done[i]);
                    }
                    if announced(capabilities@[k as int]) == Some(c) {
                        assert(now[k as int] == capabilities@[k as int]);
                    }
                    if announced_set(now).contains(c) {
                        let i = choose|i: int| 0 <= i < now.len() && announced(#[trigger] now[i]) == Some(c);
                        if i < k {
                            assert(done[i] == now[i]);
                        }
                    }
                }
                assert(self.capabilities@ =~= old(self).capabilities@.union(announced_set(now)));
            }
            k = k + 1;
        }
        assert(capabilities@.subrange(0, k as int) =~= capabilities@);
    }

}

} // verus!
