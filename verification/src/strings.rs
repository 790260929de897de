//! The one operation on `String` that the crate needs and vstd does not
//! specify.

use vstd::prelude::*;

verus! {

/// Calls `String::push`. Trusted: the text afterwards is the text before with
/// `c` added at its end, as the standard library documents.
#[verifier::external_body]
pub(crate) fn push_char(text: &mut String, c: char)
    ensures
        final(text)@ == old(text)@.push(c),
{
    text.push(c);
}

} // verus!
