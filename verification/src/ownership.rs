//! Borrowing: picking one of two borrowed strings.

use vstd::prelude::*;
use vstd::utf8::encode_utf8;

verus! {

/// The number of bytes that `text` takes in UTF-8, which is what Rust calls
/// the length of a string.
pub open spec fn byte_length(text: Seq<char>) -> nat {
    encode_utf8(text).len()
}

/// The longer of two strings, by their length in bytes; `right` where
/// neither is longer.
pub fn longest<'a>(left: &'a str, right: &'a str) -> (longer: &'a str)
    ensures
        longer == if byte_length(left@) > byte_length(right@) {
            left
        } else {
            right
        },
{
    if left.as_bytes().len() > right.as_bytes().len() {
        left
    } else {
        right
    }
}

} // verus!
