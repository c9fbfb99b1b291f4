//! Texts as sequences of characters: how they are escaped, joined as paths,
//! written as numbers, and searched.

pub mod decimal;
pub mod escape;
pub mod occurrences;
pub mod paths;

use vstd::prelude::*;

verus! {

/// `String::push` appends the character to the end of the string and changes
/// nothing else.
pub assume_specification[ String::push ](text: &mut String, c: char)
    ensures
        final(text)@ == old(text)@.push(c),
;

} // verus!
