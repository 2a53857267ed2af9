//! Fetching whole messages.
use vstd::prelude::*;
use crate::imap::response::AttributeValue;

verus! {

/// The command that fetches the messages of a sequence set whole:
/// `FETCH set (RFC822)`.
pub fn fetch_command(sequence_set: &str) -> (r: String)
    ensures
        r@ == "FETCH "@ + sequence_set@ + " (RFC822)"@,
{
    let mut s = String::from_str("FETCH ");
    s.append(sequence_set);
    s.append(" (RFC822)");
    s
}

/// Whether an attribute carries a whole message.
pub open spec fn has_content(a: AttributeValue) -> bool {
    a matches AttributeValue::Rfc822(Some(_))
}

/// The whole message among the attributes of a FETCH response: that of the
/// first attribute that carries one.
pub fn content(attributes: &Vec<AttributeValue>) -> (r: &Vec<u8>)
    requires
        exists|i: int| 0 <= i < attributes@.len() && has_content(#[trigger] attributes@[i]),
    ensures
        exists|i: int|
            0 <= i < attributes@.len() && attributes@[i] == AttributeValue::Rfc822(Some(*r))
                && forall|k: int| 0 <= k < i ==> !has_content(#[trigger] attributes@[k]),
{
    let n = attributes.len();
    let mut k: usize = 0;
    loop
        invariant
            n == attributes@.len(),
            k < attributes@.len(),
            forall|m: int| 0 <= m < k ==> !has_content(#[trigger] attributes@[m]),
            exists|i: int| k <= i < attributes@.len() && has_content(#[trigger] attributes@[i]),
        decreases attributes@.len() - k,
    {
        if let AttributeValue::Rfc822(Some(data)) = &attributes[k] {
            return data;
        }
        proof {
            let i = choose|i: int| k <= i < attributes@.len() && has_content(#[trigger] attributes@[i]);
            assert(i != k);
        }
        k = k + 1;
    }
}

} // verus!
