//! Moving between strings and sequences of characters.

use vstd::prelude::*;

verus! {

/// Appends `c` to `text`.
///
/// The body calls `String::push` of the standard library. The contract
/// claims what its documentation says: the character is added at the end
/// of the string, and the characters already there stay as they are.
#[verifier::external_body]
pub(crate) fn push_char(text: &mut String, c: char)
    ensures
        final(text)@ == old(text)@.push(c),
{
    text.push(c);
}

/// The characters of `text`, in order.
pub(crate) fn chars_of(text: &str) -> (chars: Vec<char>)
    ensures
        chars@ == text@,
{
    let mut chars: Vec<char> = Vec::new();
    for c in it: text.chars()
        invariant
            chars@ == it.seq().take(it.index() as int),
            it.seq() == text@,
    {
        chars.push(c);
    }
    chars
}

} // verus!
