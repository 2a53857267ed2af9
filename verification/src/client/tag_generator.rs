//! Tags for the commands of a client, as bytes.
use vstd::prelude::*;
use crate::imap::tag_generator::next_tag_number;
use crate::text::{ascii_bytes, hex4, hex4_bytes};

verus! {

/// Hands out the tags `0000`, `0001`, ..., `ffff`, `0000`, ... in turn.
pub struct TagGenerator {
    last_tag: u16,
}

impl View for TagGenerator {
    type V = u16;

    /// The number of the tag handed out last.
    closed spec fn view(&self) -> u16 {
        self.last_tag
    }
}

impl TagGenerator {
    /// A generator whose first tag is `0000`.
    pub fn default() -> (r: Self)
        ensures
            r@ == u16::MAX,
    {
        TagGenerator { last_tag: u16::MAX }
    }

    /// The bytes of the next tag: the next number, in four lowercase
    /// hexadecimal digits.
    pub fn next(&mut self) -> (r: Vec<u8>)
        ensures
            final(self)@ == next_tag_number(old(self)@),
            r@ == ascii_bytes(hex4(final(self)@)),
    {
        let next = if self.last_tag == u16::MAX {
            0
        } else {
            self.last_tag + 1
        };
        self.last_tag = next;
        hex4_bytes(next)
    }
}

} // verus!
