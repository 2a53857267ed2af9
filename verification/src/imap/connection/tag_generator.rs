//! Tags for the commands sent over a connection.
use vstd::prelude::*;
use crate::imap::tag_generator::next_tag_number;
use crate::text::{hex4, hex4_string};

verus! {

/// Hands out the tags `0000`, `0001`, ..., `ffff`, `0000`, ... in turn.
pub struct TagGenerator {
    last_tag: u16,
}

impl View for TagGenerator {
    type V = u16;

    /// The number of the tag handed out last.
    closed spec fn view(&self) -> u16 {
        self.last_tag
    }
}

impl Default for TagGenerator {
    fn default() -> (r: Self)
        ensures
            r@ == u16::MAX,
    {
        Self { last_tag: u16::MAX }
    }
}

impl TagGenerator {
    /// The next tag: the next number, in four lowercase hexadecimal digits.
    pub fn next(&mut self) -> (r: String)
        ensures
            final(self)@ == next_tag_number(old(self)@),
            r@ == hex4(final(self)@),
    {
        let next = if self.last_tag == u16::MAX {
            0
        } else {
            self.last_tag + 1
        };
        self.last_tag = next;
        hex4_string(next)
    }
}

} // verus!
