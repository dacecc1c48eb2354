//! Token vesting: an organization locks a pool of fungible tokens in custody,
//! records a per-employee release schedule, and lets each employee withdraw
//! only the portion of their allocation that has vested by wall-clock time.
//!
//! `state` holds the two persisted records (pool and schedule) with their
//! invariants, `claim` holds the vesting arithmetic and the claim state
//! machine, `ledger` holds the keyed record store with the three boundary
//! operations, and `errors` holds the error taxonomy.

pub mod claim;
pub mod errors;
pub mod ledger;
pub mod state;
