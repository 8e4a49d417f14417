//! Every way a pool operation can be refused. A refused call leaves the
//! pool untouched: each entry point's contract says so.

use vstd::prelude::*;

verus! {

#[derive(Clone, Copy, Debug, PartialEq, Eq, Structural)]
pub enum PoolError {
    /// An owner-only operation was called by someone else.
    NotOwner,
    /// The pool's activity flag is off.
    NotActive,
    /// The closing date has passed and the operation is not allowed after it.
    PoolClosed,
    /// The caller (or named account) has no vault.
    UnregisteredAccount,
    /// A withdrawal asked for more than the vault holds.
    InsufficientStake,
    /// A registration deposit below the fixed registration fee.
    InsufficientDeposit,
    /// A token deposit arrived from a token other than the staking token.
    WrongToken,
    /// A token deposit of zero.
    ZeroAmount,
    /// A mutating call that demands the single-unit authorization attachment
    /// did not attach exactly one unit.
    MissingAuthToken,
    /// The treasury sweep was asked of a pool whose stakes are returnable.
    PoolReturnable,
    /// The treasury sweep was asked before the closing date passed.
    PoolNotClosed,
    /// Partial withdrawal of the registration deposit is never possible;
    /// closing the account is the only way to reclaim it.
    StorageWithdrawUnsupported,
}

} // verus!
