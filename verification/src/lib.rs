//! Accounting core of a two-asset constant-product liquidity pool.
//!
//! The library tracks a pool's configuration and its outstanding share count,
//! converts between deposited asset amounts and proportional shares, and
//! prices exchanges between the two assets with a 0.3% fee.  Reserve balances
//! live in an external ledger and are handed in by the caller; every
//! operation is a single checked state transition on plain integers.

pub mod counter;
pub mod error;
pub mod laws;
pub mod math;
pub mod pool;
