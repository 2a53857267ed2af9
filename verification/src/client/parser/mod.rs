pub mod grammar;
pub mod scan;
pub mod spec;

use vstd::prelude::*;
use grammar::{g_greeting, SpecCapability, SpecResponseTextCode};
use spec::{greeting, Capability, ResponseTextCode};

verus! {

/// What a server's greeting announced.
#[derive(Debug)]
pub struct Greeting {
    capabilities: Option<Vec<Capability>>,
}

impl Greeting {
    pub closed spec fn spec_capabilities(&self) -> Option<Seq<SpecCapability>> {
        self.capabilities.deep_view()
    }

    /// The capabilities listed in the greeting's response code, if it had one.
    pub fn capabilities(&self) -> (r: &Option<Vec<Capability>>)
        ensures
            r.deep_view() == self.spec_capabilities(),
    {
        &self.capabilities
    }
}

/// The capabilities that a greeting's response code lists, if its code is a
/// capability list.
pub open spec fn greeting_capabilities(input: Seq<char>) -> Option<Seq<SpecCapability>> {
    match g_greeting(input, 0) {
        Some((_, t)) => match t.code {
            Some(SpecResponseTextCode::Capability(caps)) => Some(caps),
            _ => None,
        },
        None => None,
    }
}

/// Reads a server greeting; what follows the greeting's line break is ignored.
pub fn parse_greeting(input: &str) -> (r: Result<Greeting, ()>)
    ensures
        r is Ok <==> g_greeting(input@, 0) is Some,
        r matches Ok(g) ==> g.spec_capabilities() == greeting_capabilities(input@),
{
    if let Ok((_, response)) = greeting(input) {
        let capabilities = if let Some(ResponseTextCode::Capability(capabilities)) = response.code {
            Some(capabilities)
        } else {
            None
        };
        Ok(Greeting { capabilities })
    } else {
        Err(())
    }
}

} // verus!
