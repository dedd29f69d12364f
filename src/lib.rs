//! Emits the source modules that a viem client reads: one module that maps each
//! network to its contracts' addresses, and one module per contract that exports
//! its ABI as a constant.
use vstd::prelude::*;

pub mod abi;
pub mod contracts;
pub mod laws;
pub mod render;
pub mod table;
pub mod viem;

pub use contracts::{ContractMetadata, IntermediateContracts};
pub use render::{ContractAddresses, NetworkAddresses};
pub use viem::{OutputDir, OutputFile, Viem};

verus! {

} // verus!
