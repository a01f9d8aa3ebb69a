//! A verified model of the FaniLab delivery protocol: escrow, delivery,
//! dispute resolution, fleet management, identity/reputation and settlement
//! contracts, together with the ledger they run on.
use vstd::prelude::*;

pub mod types;
pub mod token;
pub mod index;
pub mod env;
pub mod escrow;
pub mod delivery;
pub mod dispute;
pub mod fleet;
pub mod identity;
pub mod settlement;
pub mod laws;
pub mod accounting;
pub mod guarantees;

verus! {

} // verus!
