//! Core state-transition logic of a proof-of-authority parachain runtime:
//! a sorted-set primitive, a token-allocation state machine with a hard
//! supply ceiling and fee splitting, and a bounded validator-membership
//! state machine that stages the candidate set for the next session.

use vstd::prelude::*;

pub mod allocations;
pub mod ledger;
pub mod ordered_set;
pub mod poa;

verus! {

/// Identity of an on-chain account.
pub type AccountId = u64;

/// Amount of tokens, wide enough for chain-lifetime supply totals.
pub type Balance = u128;

} // verus!
