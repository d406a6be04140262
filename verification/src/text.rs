//! Building text one character at a time.
use vstd::prelude::*;

verus! {

/// Appends `c` to `text`. This is `String::push` of the standard library,
/// which is documented to append the given character to the end of the
/// string; the contract says that and nothing more.
#[verifier::external_body]
pub(crate) fn push_char(text: &mut String, c: char)
    ensures
        final(text)@ == old(text)@.push(c),
{
    text.push(c)
}

} // verus!
