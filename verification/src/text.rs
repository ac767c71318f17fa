//! What the verifier is told about comparing text.

use vstd::prelude::*;

verus! {

/// `==` on `str`, from the standard library: two string slices are equal
/// exactly when they hold the same characters in the same order.
pub assume_specification[ <str as PartialEq>::eq ](a: &str, b: &str) -> (same: bool)
    ensures
        same == (a@ == b@),
;

} // verus!
