//! The input: deployed contracts grouped by network.
use vstd::prelude::*;

verus! {

/// serde_json's Value, carried through as a contract's ABI.
#[verifier::external_type_specification]
#[verifier::external_body]
pub struct ExJsonValue(serde_json::Value);

/// A deployed contract: its name (used verbatim in a file name), its address,
/// and its interface description as a JSON document.
pub struct ContractMetadata {
    pub name: String,
    pub address: String,
    pub abi: serde_json::Value,
}

/// Contracts grouped by network identifier, in the order given.
pub type IntermediateContracts = Vec<(u64, Vec<ContractMetadata>)>;

impl ContractMetadata {
    pub fn new(name: String, address: String, abi: serde_json::Value) -> (r: ContractMetadata)
        ensures
            r.name == name,
            r.address == address,
            r.abi == abi,
    {
        ContractMetadata { name, address, abi }
    }
}

} // verus!
