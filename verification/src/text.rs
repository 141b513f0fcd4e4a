//! Names are compared as sequences of characters.

use vstd::prelude::*;

verus! {

/// `==` of `str`, which compares two string slices by their contents: the
/// result is `true` exactly when both hold the same characters in the same
/// order.
#[verifier::external_body]
pub(crate) fn str_eq(a: &str, b: &str) -> (r: bool)
    ensures
        r == (a@ == b@),
{
    a == b
}

} // verus!
