//! Random identifiers for goals.

use uuid::Uuid;
use vstd::prelude::*;

verus! {

/// Whether the 128 bits are those of a random (version 4) UUID of the
/// standard variant: the four version bits hold 4 and the two variant bits
/// hold binary 10.
pub open spec fn is_random_uuid(id: u128) -> bool {
    (id >> 76) & 0xF == 4 && (id >> 62) & 0x3 == 2
}

/// `uuid::Uuid::new_v4`, its bytes packed into a number by
/// `uuid::Uuid::as_u128`: 122 bits from the operating system's random
/// source, the version and variant bits fixed. Nothing is known of the
/// random bits; two calls may give the same id. The call does not return
/// where the operating system has no random bytes to give.
#[verifier::external_body]
pub(crate) fn fresh_uuid() -> (id: u128)
    ensures
        is_random_uuid(id),
{
    Uuid::new_v4().as_u128()
}

} // verus!
