//! Tags that tell the commands of one connection apart.
use vstd::prelude::*;
use crate::text::{hex4, hex4_string, lemma_hex4_injective};

verus! {

/// The number of the tag that follows the tag numbered `last`, counting
/// modulo 65536.
pub open spec fn next_tag_number(last: u16) -> u16 {
    if last == u16::MAX {
        0
    } else {
        (last + 1) as u16
    }
}

/// The number of the tag handed out `k` calls after the tag numbered `last`.
pub open spec fn tag_number_after(last: u16, k: nat) -> u16 {
    ((last + k) % 65536) as u16
}

/// One call moves the tag number one step on.
pub proof fn lemma_next_tag_number_steps(last: u16, k: nat)
    ensures
        next_tag_number(tag_number_after(last, k)) == tag_number_after(last, k + 1),
        tag_number_after(last, 0) == last,
{
}

/// Of 65536 consecutive tags of one generator, no two are equal.
pub proof fn lemma_tags_distinct(last: u16, i: nat, j: nat)
    requires
        i < j < i + 65536,
    ensures
        hex4(tag_number_after(last, i)) != hex4(tag_number_after(last, j)),
{
    if hex4(tag_number_after(last, i)) == hex4(tag_number_after(last, j)) {
        lemma_hex4_injective(tag_number_after(last, i), tag_number_after(last, j));
        assert((last + i) % 65536 == (last + j) % 65536);
        assert(false) by (nonlinear_arith)
            requires
                (last + i) % 65536 == (last + j) % 65536,
                i < j < i + 65536,
        ;
    }
}

/// Tags repeat after 65536 calls.
pub proof fn lemma_tags_cycle(last: u16, k: nat)
    ensures
        tag_number_after(last, k + 65536) == tag_number_after(last, k),
{
    assert((last + k + 65536) % 65536 == (last + k) % 65536) by (nonlinear_arith);
}

/// Hands out the tags `0000`, `0001`, ..., `ffff`, `0000`, ... in turn.
#[derive(Debug)]
pub struct TagGenerator {
    last_tag: u16,
}

impl View for TagGenerator {
    type V = u16;

    /// The number of the tag handed out last.
    closed spec fn view(&self) -> u16 {
        self.last_tag
    }
}

impl Default for TagGenerator {
    fn default() -> (r: Self)
        ensures
            r@ == u16::MAX,
    {
        Self { last_tag: u16::MAX }
    }
}

impl TagGenerator {
    /// The next tag: the next number, in four lowercase hexadecimal digits.
    pub fn next(&mut self) -> (r: String)
        ensures
            final(self)@ == next_tag_number(old(self)@),
            r@ == hex4(final(self)@),
    {
        let next = if self.last_tag == u16::MAX {
            0
        } else {
            self.last_tag + 1
        };
        self.last_tag = next;
        hex4_string(next)
    }
}

} // verus!
