//! Dispatch weights for the registry's operations: fixed placeholder
//! values, to be replaced by measured weights.

use vstd::prelude::*;

verus! {

/// The fixed weight charged for either registry operation.
pub const OPERATION_WEIGHT: u64 = 10_000;

/// Weight table for the permission registry's operations.
pub struct SubstrateWeight;

impl SubstrateWeight {
    /// Weight charged for a grant.
    pub fn grant_access() -> (w: u64)
        ensures
            w == OPERATION_WEIGHT,
    {
        OPERATION_WEIGHT
    }

    /// Weight charged for a revoke.
    pub fn revoke_access() -> (w: u64)
        ensures
            w == OPERATION_WEIGHT,
    {
        OPERATION_WEIGHT
    }
}

} // verus!
