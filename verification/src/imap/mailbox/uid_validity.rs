//! The validity value of a mailbox's identifiers.
use vstd::prelude::*;
use vstd::std_specs::convert::FromSpecImpl;
use crate::text::{decimal, decimal_string};

verus! {

/// A mailbox's UIDVALIDITY: while it stays the same, identifiers keep
/// naming the same messages.
#[derive(Clone, Debug, PartialEq, Copy)]
pub struct UidValidity(u32);

impl View for UidValidity {
    type V = u32;

    closed spec fn view(&self) -> u32 {
        self.0
    }
}

pub closed spec fn spec_uid_validity(value: u32) -> UidValidity {
    UidValidity(value)
}

pub broadcast proof fn lemma_spec_uid_validity_view(value: u32)
    ensures
        #[trigger] spec_uid_validity(value)@ == value,
{
}

impl UidValidity {
    pub fn new(validity: u32) -> (r: Self)
        ensures
            r@ == validity,
    {
        Self(validity)
    }

    /// The value.
    pub fn get(&self) -> (r: u32)
        ensures
            r == self@,
    {
        self.0
    }

    /// The decimal notation of the value.
    pub fn to_string(&self) -> (r: String)
        ensures
            r@ == decimal(self@ as nat),
    {
        decimal_string(self.0 as u64)
    }
}

impl From<u32> for UidValidity {
    fn from(value: u32) -> (r: Self) {
        Self(value)
    }
}

impl FromSpecImpl<u32> for UidValidity {
    open spec fn obeys_from_spec() -> bool {
        true
    }

    open spec fn from_spec(value: u32) -> UidValidity {
        spec_uid_validity(value)
    }
}

impl From<UidValidity> for u32 {
    fn from(value: UidValidity) -> (r: u32) {
        value.0
    }
}

impl FromSpecImpl<UidValidity> for u32 {
    open spec fn obeys_from_spec() -> bool {
        true
    }

    open spec fn from_spec(value: UidValidity) -> u32 {
        value@
    }
}

} // verus!
