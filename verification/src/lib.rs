//! An allow-list of accounts that grows by quorum vote, and the admission
//! check that consults it before a restricted call enters the pipeline.

use vstd::prelude::*;

pub mod extension;
pub mod invariants;
pub mod ledger;
pub mod membership;
pub mod pallet;
pub mod threshold;

pub use extension::{
    AllowAccount, BlockCallMatcher, Config, DispatchInfo, InvalidTransaction, ValidTransaction,
};
pub use ledger::{Vote, VoteLedger};
pub use membership::MembershipStore;
pub use pallet::{Error, Event, GenesisConfig, Pallet};
pub use threshold::Threshold;

verus! {

/// Identifies a participant that can sign transactions.
pub type AccountId = u64;

} // verus!
