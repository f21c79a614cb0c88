//! Fresh identifiers. Stream entries, pipelines and frames are identified by
//! 128-bit values generated once at creation.

use vstd::prelude::*;

verus! {

/// Relies on `uuid::Uuid::new_v4` and `uuid::Uuid::as_u128`: a freshly drawn
/// random version-4 UUID, returned as its 128-bit value. The value is random,
/// so nothing is promised of it.
#[verifier::external_body]
pub fn fresh_uuid() -> u128 {
    uuid::Uuid::new_v4().as_u128()
}

} // verus!
