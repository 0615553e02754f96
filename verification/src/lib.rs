//! A time-based token vesting ledger.
//!
//! The ledger tracks, per beneficiary account, a fixed-point share of a
//! fungible token supply, a vesting schedule, and how much has already been
//! claimed.  A two-phase claim protocol keeps the ledger consistent with an
//! external transfer service: the debit is recorded only after the transfer
//! is confirmed.

pub mod allocation;
pub mod arith;
pub mod deployer;
pub mod errors;
