//! Message unique identifiers.
use vstd::prelude::*;
use core::convert::TryFrom;
use core::ops::Add;
use vstd::std_specs::convert::{FromSpecImpl, TryFromSpecImpl};
use vstd::std_specs::ops::AddSpecImpl;
use crate::text::{decimal, decimal_string};

verus! {

/// The unique identifier of a message in a mailbox; never zero.
#[derive(Debug, PartialEq, Clone, Copy, Eq, Hash, PartialOrd, Ord)]
pub struct Uid {
    value: u32,
}

impl View for Uid {
    type V = u32;

    closed spec fn view(&self) -> u32 {
        self.value
    }
}

/// The identifier with the given value, as a spec value.
pub closed spec fn spec_uid(value: u32) -> Uid {
    Uid { value }
}

pub broadcast proof fn lemma_spec_uid_view(value: u32)
    ensures
        #[trigger] spec_uid(value)@ == value,
{
}

pub broadcast proof fn lemma_uid_eq(a: Uid, b: Uid)
    ensures
        #[trigger] (a@) == #[trigger] (b@) ==> a == b,
{
}

impl Uid {
    #[verifier::type_invariant]
    spec fn nonzero(self) -> bool {
        self.value != 0
    }

    /// The largest identifier.
    pub fn max_value() -> (r: Uid)
        ensures
            r@ == u32::MAX,
    {
        Uid { value: u32::MAX }
    }

    /// The value, which is never zero.
    pub fn get(&self) -> (r: u32)
        ensures
            r == self@,
            r != 0,
    {
        proof {
            use_type_invariant(self);
        }
        self.value
    }

    /// The identifiers from `self` up to and including `other`, in order.
    pub fn range_inclusive(self, other: Self) -> (r: UidRange)
        ensures
            r.remaining() == uid_values(self@ as int, other@ as int),
    {
        proof {
            use_type_invariant(&self);
        }
        UidRange { next: self.value as u64, last: other.value }
    }

    /// `self + rhs`, held at the largest identifier.
    pub fn saturating_add(self, rhs: u32) -> (r: Uid)
        ensures
            r@ == if self@ + rhs > u32::MAX {
                u32::MAX
            } else {
                (self@ + rhs) as u32
            },
    {
        proof {
            use_type_invariant(&self);
        }
        Uid { value: self.value.saturating_add(rhs) }
    }

    /// The decimal notation of the identifier.
    pub fn to_string(&self) -> (r: String)
        ensures
            r@ == decimal(self@ as nat),
    {
        decimal_string(self.value as u64)
    }

    /// The identifier with value `value`, which must not be zero.
    pub fn try_from_u32(value: u32) -> (r: Result<Uid, &'static str>)
        ensures
            r == uid_from_u32(value),
    {
        if value != 0 {
            Ok(Uid { value })
        } else {
            Err("Cannot convert u32 to nonzero")
        }
    }

    /// The identifier with value `value`, which must lie in `1..=u32::MAX`.
    pub fn try_from_i64(value: i64) -> (r: Result<Uid, &'static str>)
        ensures
            r == uid_from_i64(value),
    {
        if 0 <= value && value <= 0xffff_ffff {
            Uid::try_from_u32(value as u32)
        } else {
            Err("i64 too large")
        }
    }
}

pub open spec fn uid_from_u32(value: u32) -> Result<Uid, &'static str> {
    if value != 0 {
        Ok(spec_uid(value))
    } else {
        Err("Cannot convert u32 to nonzero")
    }
}

pub open spec fn uid_from_i64(value: i64) -> Result<Uid, &'static str> {
    if 0 <= value <= u32::MAX {
        uid_from_u32(value as u32)
    } else {
        Err("i64 too large")
    }
}

/// Converting an identifier to its number and back gives the identifier.
pub proof fn lemma_uid_round_trip(u: Uid)
    requires
        u@ != 0,
    ensures
        uid_from_u32(u@) == Ok::<Uid, &'static str>(u),
{
    lemma_uid_eq(spec_uid(u@), u);
}

/// Converting a number to an identifier and back gives the number.
pub proof fn lemma_u32_round_trip(value: u32)
    ensures
        uid_from_u32(value) matches Ok(u) ==> u@ == value,
{
}

/// The values `from..=to`, in order; empty when `to < from`.
pub open spec fn uid_values(from: int, to: int) -> Seq<u32> {
    Seq::new(if to >= from { (to - from + 1) as nat } else { 0 }, |k: int| (from + k) as u32)
}

/// The identifiers of a closed interval, handed out one at a time.
pub struct UidRange {
    next: u64,
    last: u32,
}

impl UidRange {
    #[verifier::type_invariant]
    spec fn in_bounds(self) -> bool {
        1 <= self.next <= u32::MAX + 1
    }

    /// The values still to come, in order.
    pub closed spec fn remaining(self) -> Seq<u32> {
        uid_values(self.next as int, self.last as int)
    }

    /// The next identifier, if any is left.
    pub fn next(&mut self) -> (r: Option<Uid>)
        ensures
            old(self).remaining().len() == 0 ==> r is None && final(self).remaining().len() == 0,
            old(self).remaining().len() > 0 ==> (r matches Some(u) && u@ == old(
                self,
            ).remaining()[0] && final(self).remaining() == old(self).remaining().drop_first()),
    {
        proof {
            use_type_invariant(&*self);
        }
        if self.next > self.last as u64 {
            return None;
        }
        let value = self.next as u32;
        let ghost before = self.remaining();
        self.next = self.next + 1;
        assert(self.remaining() =~= before.drop_first());
        Some(Uid { value })
    }
}

impl Add<u32> for Uid {
    type Output = Uid;

    fn add(self, rhs: u32) -> (r: Uid) {
        self.saturating_add(rhs)
    }
}

impl AddSpecImpl<u32> for Uid {
    open spec fn obeys_add_spec() -> bool {
        true
    }

    open spec fn add_req(self, rhs: u32) -> bool {
        true
    }

    open spec fn add_spec(self, rhs: u32) -> Uid {
        spec_uid(
            if self@ + rhs > u32::MAX {
                u32::MAX
            } else {
                (self@ + rhs) as u32
            },
        )
    }
}

impl TryFrom<u32> for Uid {
    type Error = &'static str;

    fn try_from(value: u32) -> (r: Result<Self, Self::Error>) {
        Uid::try_from_u32(value)
    }
}

impl TryFromSpecImpl<u32> for Uid {
    open spec fn obeys_try_from_spec() -> bool {
        true
    }

    open spec fn try_from_spec(value: u32) -> Result<Self, Self::Error> {
        uid_from_u32(value)
    }
}

impl TryFrom<i64> for Uid {
    type Error = &'static str;

    fn try_from(value: i64) -> (r: Result<Self, Self::Error>) {
        Uid::try_from_i64(value)
    }
}

impl TryFromSpecImpl<i64> for Uid {
    open spec fn obeys_try_from_spec() -> bool {
        true
    }

    open spec fn try_from_spec(value: i64) -> Result<Self, Self::Error> {
        uid_from_i64(value)
    }
}

impl From<Uid> for u32 {
    fn from(value: Uid) -> (r: u32) {
        value.get()
    }
}

impl FromSpecImpl<Uid> for u32 {
    open spec fn obeys_from_spec() -> bool {
        true
    }

    open spec fn from_spec(value: Uid) -> u32 {
        value@
    }
}

} // verus!
