//! What the standard library's `String` does, where vstd does not say it.

use vstd::prelude::*;

verus! {

/// `String::push` appends one character to the end of the string, as its
/// documentation says.
pub assume_specification[ String::push ](text: &mut String, ch: char)
    ensures
        final(text)@ == old(text)@.push(ch),
;

} // verus!
