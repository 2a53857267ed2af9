//! Modification sequence numbers.
use vstd::prelude::*;
use core::convert::TryFrom;
use vstd::std_specs::convert::{FromSpecImpl, TryFromSpecImpl};
use crate::text::{decimal, decimal_string};

verus! {

/// The modification sequence number of a message or mailbox; never zero.
#[derive(Debug, Clone, Copy, PartialEq, Eq, PartialOrd, Ord)]
pub struct ModSeq {
    value: u64,
}

impl View for ModSeq {
    type V = u64;

    closed spec fn view(&self) -> u64 {
        self.value
    }
}

pub closed spec fn spec_modseq(value: u64) -> ModSeq {
    ModSeq { value }
}

pub broadcast proof fn lemma_spec_modseq_view(value: u64)
    ensures
        #[trigger] spec_modseq(value)@ == value,
{
}

/// Two modification sequences with the same number are the same.
pub broadcast proof fn lemma_modseq_eq(a: ModSeq, b: ModSeq)
    ensures
        #[trigger] (a@) == #[trigger] (b@) ==> a == b,
{
}

/// Converting a modification sequence to its number and back gives it.
pub proof fn lemma_modseq_round_trip(m: ModSeq)
    requires
        m@ != 0,
    ensures
        modseq_from_u64(m@) == Ok::<ModSeq, &'static str>(m),
{
    lemma_modseq_eq(spec_modseq(m@), m);
}

pub open spec fn modseq_from_u64(value: u64) -> Result<ModSeq, &'static str> {
    if value != 0 {
        Ok(spec_modseq(value))
    } else {
        Err("Cannot convert u64 to nonzero")
    }
}

impl ModSeq {
    #[verifier::type_invariant]
    spec fn nonzero(self) -> bool {
        self.value != 0
    }

    /// The number, which is never zero.
    pub fn get(&self) -> (r: u64)
        ensures
            r == self@,
            r != 0,
    {
        proof {
            use_type_invariant(self);
        }
        self.value
    }

    /// The largest modification sequence.
    pub fn max_value() -> (r: ModSeq)
        ensures
            r@ == u64::MAX,
    {
        ModSeq { value: u64::MAX }
    }

    /// The number `value`, which must not be zero.
    pub fn try_from_u64(value: u64) -> (r: Result<ModSeq, &'static str>)
        ensures
            r == modseq_from_u64(value),
    {
        if value != 0 {
            Ok(ModSeq { value })
        } else {
            Err("Cannot convert u64 to nonzero")
        }
    }

    /// The decimal notation of the number.
    pub fn to_string(&self) -> (r: String)
        ensures
            r@ == decimal(self@ as nat),
    {
        decimal_string(self.value)
    }
}

impl TryFrom<u64> for ModSeq {
    type Error = &'static str;

    fn try_from(value: u64) -> (r: Result<Self, Self::Error>) {
        ModSeq::try_from_u64(value)
    }
}

impl TryFromSpecImpl<u64> for ModSeq {
    open spec fn obeys_try_from_spec() -> bool {
        true
    }

    open spec fn try_from_spec(value: u64) -> Result<Self, Self::Error> {
        modseq_from_u64(value)
    }
}

impl TryFrom<&u64> for ModSeq {
    type Error = &'static str;

    fn try_from(value: &u64) -> (r: Result<Self, Self::Error>) {
        ModSeq::try_from_u64(*value)
    }
}

impl TryFromSpecImpl<&u64> for ModSeq {
    open spec fn obeys_try_from_spec() -> bool {
        true
    }

    open spec fn try_from_spec(value: &u64) -> Result<Self, Self::Error> {
        modseq_from_u64(*value)
    }
}

impl From<ModSeq> for u64 {
    fn from(value: ModSeq) -> (r: u64) {
        value.get()
    }
}

impl FromSpecImpl<ModSeq> for u64 {
    open spec fn obeys_from_spec() -> bool {
        true
    }

    open spec fn from_spec(value: ModSeq) -> u64 {
        value@
    }
}

impl From<&ModSeq> for u64 {
    fn from(value: &ModSeq) -> (r: u64) {
        value.get()
    }
}

impl FromSpecImpl<&ModSeq> for u64 {
    open spec fn obeys_from_spec() -> bool {
        true
    }

    open spec fn from_spec(value: &ModSeq) -> u64 {
        value@
    }
}

} // verus!
