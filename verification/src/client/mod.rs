//! The client's first look at a server.
use vstd::prelude::*;
use crate::imap::response::{Response, ResponseCode, ResponseStatus, ServerCapability};
use crate::text::str_eq;

pub mod parser;
pub mod session;
pub mod tag_generator;

verus! {

/// Whether an announced capability is the atom `IDLE`.
pub open spec fn is_idle_atom(c: ServerCapability) -> bool {
    c matches ServerCapability::Atom(name) && name@ == "IDLE"@
}

/// Whether a list of announced capabilities holds the atom `IDLE`.
pub open spec fn announces_idle(caps: Seq<ServerCapability>) -> bool {
    exists|i: int| 0 <= i < caps.len() && is_idle_atom(#[trigger] caps[i])
}

/// Whether a greeting is an untagged OK response whose code lists the
/// server's capabilities.
pub open spec fn greeting_lists_capabilities(greeting: Response) -> bool {
    greeting matches Response::Data { status: ResponseStatus::Okay, code: Some(ResponseCode::Capabilities(_)), .. }
}

/// Whether the server, by the capabilities its greeting lists, can IDLE.
pub fn can_idle(greeting: &Response) -> (r: bool)
    requires
        greeting_lists_capabilities(*greeting),
    ensures
        r == announces_idle(greeting->Data_code->0->Capabilities_0@),
{
    match greeting {
        Response::Data { code: Some(ResponseCode::Capabilities(caps)), .. } => {
            assert(caps@ == greeting->Data_code->0->Capabilities_0@);
            let mut k: usize = 0;
            while k < caps.len()
                invariant
                    k <= caps@.len(),
                    caps@ == greeting->Data_code->0->Capabilities_0@,
                    forall|m: int| 0 <= m < k ==> !is_idle_atom(#[trigger] caps@[m]),
                decreases caps@.len() - k,
            {
                if let ServerCapability::Atom(name) = &caps[k] {
                    if str_eq(name.as_str(), "IDLE") {
                        assert(is_idle_atom(caps@[k as int]));
                        assert(announces_idle(caps@));
                        return true;
                    }
                }
                k = k + 1;
            }
            false
        },
        _ => false,
    }
}

} // verus!
