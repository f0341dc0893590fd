//! Chain-level constants the host asks the core about: the version record
//! and the names of the genesis presets.

use vstd::prelude::*;

verus! {

/// The ledger revision this crate's rules correspond to.
#[derive(Debug, PartialEq, Eq, Clone, Copy)]
pub struct Version {
    /// Revision of the runtime's logic.
    pub spec_version: u32,
    /// Revision of the implementation, bumped without a logic change.
    pub impl_version: u32,
    /// Revision of the block-authoring interface.
    pub authoring_version: u32,
    /// Revision of the transaction format.
    pub transaction_version: u32,
}

impl Version {
    /// The current version record.
    pub fn get() -> (r: Version)
        ensures
            r == (Version {
                spec_version: 101,
                impl_version: 1,
                authoring_version: 1,
                transaction_version: 1,
            }),
    {
        Version { spec_version: 101, impl_version: 1, authoring_version: 1, transaction_version: 1 }
    }

    /// The chain-spec name, shared by the spec and the implementation.
    pub fn spec_name() -> (r: String)
        ensures
            r@ == "healthchain-runtime"@,
    {
        "healthchain-runtime".to_owned()
    }
}

/// Names of the genesis presets the runtime offers, the development one
/// first.
pub fn preset_names() -> (r: Vec<String>)
    ensures
        r@.len() == 2,
        r@[0]@ == "dev"@,
        r@[1]@ == "local"@,
{
    let mut names: Vec<String> = Vec::new();
    names.push("dev".to_owned());
    names.push("local".to_owned());
    names
}

} // verus!
