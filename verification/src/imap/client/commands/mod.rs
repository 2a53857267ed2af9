//! Commands, by the text they are sent as.
use vstd::prelude::*;

verus! {

/// A command that can be sent to the server.
pub trait Command {
    /// The command's text.
    fn raw(&self) -> String;
}

} // verus!
