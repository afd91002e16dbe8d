//! Random identifiers.

use vstd::prelude::*;

verus! {

/// A fresh random identifier (`uuid::Uuid::new_v4`), as its 128-bit value.
/// Nothing is promised of it: it is random.
#[verifier::external_body]
pub(crate) fn random_id() -> (id: u128) {
    ::uuid::Uuid::new_v4().as_u128()
}

} // verus!
