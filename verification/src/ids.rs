//! Fresh identifiers for blocks and documents.

use vstd::prelude::*;

verus! {

/// Relies on `uuid::Uuid::new_v4` for a random version-4 UUID, carried as
/// its 128-bit value. The result is random, so nothing is assumed of it.
#[verifier::external_body]
pub(crate) fn random_uuid_u128() -> u128 {
    uuid::Uuid::new_v4().as_u128()
}

/// A fresh 128-bit identifier for a new block or document.
///
/// Identifiers are drawn at random; distinct calls are overwhelmingly
/// likely, but not guaranteed, to differ.
pub fn fresh_id() -> u128 {
    random_uuid_u128()
}

} // verus!
