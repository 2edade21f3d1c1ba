//! Accounting core of the BLNT backfill custody contract.
//!
//! The contract custodies the BLNT initial allocation and pays it out through
//! three immutable lanes: linearly vesting backfill allocations, linearly
//! vesting grant allocations, and a 2:1 BLND-to-BLNT conversion that expires
//! at a fixed deadline. This crate holds every decision the contract makes,
//! over plain values; the host plumbing (storage, ledger time, token calls,
//! authorization and events) lives with the deployment.
use vstd::prelude::*;

pub mod accounting;
pub mod address;
pub mod allocations;
pub mod contract;
pub mod errors;
pub mod laws;
pub mod settlement;
pub mod table;
pub mod vesting;

pub use address::Addr;
pub use errors::BackfillError;

verus! {

/// Raw units per whole token (seven decimals).
pub const SCALAR_7: i128 = 10_000_000;

/// BLNT transferred to the contract when it is deployed.
pub const TOTAL_FUNDING: i128 = 150_000_000 * SCALAR_7;

/// Upper bound on the sum of all backfill allocations.
pub const BACKFILL_CAP: i128 = 74_000_000 * SCALAR_7;

/// Upper bound on the sum of all grant allocations.
pub const GRANT_CAP: i128 = 25_000_000 * SCALAR_7;

/// Upper bound on backfill and grant allocations together.
pub const CLAIM_CAP: i128 = BACKFILL_CAP + GRANT_CAP;

/// Upper bound on the cumulative BLNT handed out by conversions.
pub const SWAP_CAP: i128 = 51_000_000 * SCALAR_7;

/// Raw legacy BLND units burned per raw BLNT unit converted.
pub const BLND_PER_BLNT: i128 = 2;

/// Legacy BLND burned when the whole conversion reserve is used.
pub const SWAP_BLND_CAP: i128 = SWAP_CAP * BLND_PER_BLNT;

/// Largest number of backfill recipients.
pub const MAX_CLAIMANTS: u32 = 434;

/// Largest number of grant recipients.
pub const MAX_GRANTEES: u32 = 100;

/// Backfill vesting runs for 180 days.
pub const VESTING_DURATION_SECONDS: u64 = 180 * 24 * 60 * 60;

/// Grant vesting runs for 720 days.
pub const GRANT_VESTING_DURATION_SECONDS: u64 = 720 * 24 * 60 * 60;

/// Conversions close 270 days after construction.
pub const SWAP_DURATION_SECONDS: u64 = 270 * 24 * 60 * 60;

} // verus!
