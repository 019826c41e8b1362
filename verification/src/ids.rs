use vstd::prelude::*;

verus! {

/// Relies on `uuid::Uuid::new_v4` (exposed as an integer via
/// `Uuid::as_u128`): draws a fresh random version-4 UUID.  The value is
/// random, so nothing is promised about it.
#[verifier::external_body]
pub(crate) fn fresh_id() -> u128 {
    uuid::Uuid::new_v4().as_u128()
}

} // verus!
