//! Fixed parameters of the pool.

use vstd::prelude::*;

verus! {

/// Fixed registration deposit, in yocto units of the native currency:
/// what an account must attach to register, and what a full close refunds.
pub const NEAR_BALANCE: u128 = 50_000_000_000_000_000_000_000;

/// One whole token, in its smallest (10^-24) units.
pub const E24: u128 = 1_000_000_000_000_000_000_000_000;

/// Nanoseconds per millisecond: block timestamps arrive in nanoseconds,
/// closing dates are kept in epoch milliseconds.
pub const NANOS_PER_MILLI: u64 = 1_000_000;

} // verus!
