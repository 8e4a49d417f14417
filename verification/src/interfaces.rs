//! Plain-value types exchanged with the host environment: read-only
//! parameter views, storage-balance reports, and the actions (token
//! transfers, native refunds) that the host performs on the pool's behalf.

use vstd::prelude::*;

verus! {

/// Read-only snapshot of the pool's parameters.
pub struct ContractParams {
    pub owner_id: String,
    pub staked_token: String,
    pub is_active: bool,
    pub closing_date: u64,
    pub total_staked: u128,
    pub accounts_registered: u64,
}

/// Storage balance of a registered account: always exactly the fixed
/// registration deposit, none of it available for partial withdrawal.
#[derive(Clone, Copy, Debug)]
pub struct StorageBalance {
    pub total: u128,
    pub available: u128,
}

/// Bounds on the storage deposit: the minimum and maximum are both the
/// fixed registration deposit.
#[derive(Clone, Copy, Debug)]
pub struct StorageBalanceBounds {
    pub min: u128,
    pub max: Option<u128>,
}

/// Which continuation the host must arm for a dispatched transfer.
#[derive(Clone, Copy, Debug, PartialEq, Eq, Structural)]
pub enum TransferKind {
    /// Returning unstaked tokens to a user; failure is compensated per
    /// account.
    UserReturn,
    /// Sweeping the pool total to the treasury; failure is compensated at
    /// pool level.
    TreasurySweep,
}

/// An outbound token transfer the host must dispatch. The pool has already
/// been debited optimistically where the protocol calls for it; the host
/// must later report the outcome to the matching callback.
#[derive(Clone, Debug)]
pub struct TransferRequest {
    pub receiver_id: String,
    pub amount: u128,
    pub kind: TransferKind,
}

/// Mathematical image of a [`TransferRequest`].
pub struct TransferModel {
    pub receiver_id: Seq<char>,
    pub amount: nat,
    pub kind: TransferKind,
}

impl View for TransferRequest {
    type V = TransferModel;

    open spec fn view(&self) -> TransferModel {
        TransferModel {
            receiver_id: self.receiver_id@,
            amount: self.amount as nat,
            kind: self.kind,
        }
    }
}

/// What closing an account asks of the host: either the immediate refund
/// of the fixed registration deposit (the vault held nothing), or a token
/// transfer with an armed continuation.
#[derive(Clone, Debug)]
pub enum CloseEffect {
    DepositRefund,
    TokenReturn(TransferRequest),
}

/// Mathematical image of a [`CloseEffect`].
pub enum CloseEffectModel {
    DepositRefund,
    TokenReturn(TransferModel),
}

impl View for CloseEffect {
    type V = CloseEffectModel;

    open spec fn view(&self) -> CloseEffectModel {
        match self {
            CloseEffect::DepositRefund => CloseEffectModel::DepositRefund,
            CloseEffect::TokenReturn(t) => CloseEffectModel::TokenReturn(t@),
        }
    }
}

/// The outcome the environment reports for a dispatched transfer: exactly
/// one such report arrives per dispatch, and a failure is terminal for
/// that attempt.
#[derive(Clone, Copy, Debug, PartialEq, Eq, Structural)]
pub enum TransferOutcome {
    Succeeded,
    Failed,
}

} // verus!
