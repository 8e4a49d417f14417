//! A staking-pool ledger: per-account vaults of a single fungible token,
//! a running total, and a two-phase withdrawal protocol in which an
//! outbound transfer is debited optimistically and compensated if the
//! environment later reports that the transfer failed.
//!
//! The execution environment (caller identity, attached deposit, clock,
//! asynchronous transfer dispatch) is kept outside: every entry point takes
//! those facts as plain arguments and returns the action the host must
//! perform, so the whole state machine is verified here.

pub mod constants;
pub mod errors;
pub mod interfaces;
pub mod laws;
pub mod model;
pub mod pool;
pub mod vault;
