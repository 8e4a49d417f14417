//! The pool itself: the ledger singleton and every entry point of the
//! staking state machine. Each mutating operation tests its whole gate
//! before touching any state, so a refused call returns the error with the
//! pool exactly as it was; the optimistic debit of a withdrawal and its
//! later compensation are the one sanctioned exception, and they are
//! reconciled by the callback entry points.

use vstd::prelude::*;

use crate::constants::{NANOS_PER_MILLI, NEAR_BALANCE};
use crate::errors::PoolError;
use crate::interfaces::{CloseEffect, ContractParams, StorageBalance, StorageBalanceBounds,
    TransferKind, TransferOutcome, TransferRequest};
use crate::model::{lemma_element_le_sum, lemma_push_new_key, lemma_remove_key, lemma_sum_push,
    lemma_sum_remove, lemma_sum_update, lemma_update_same_key, vault_index, PoolModel, VaultModel};
use crate::vault::VaultStore;

verus! {

/// The staking pool: a single-token ledger of per-account vaults, a running
/// total, and the administrative gates.
pub struct Contract {
    /// Identifier authorized for administrative operations.
    pub owner_id: String,
    /// Identifier of the sole accepted staking token.
    pub staking_token: String,
    /// When off, every mutating operation is refused.
    pub is_active: bool,
    /// Deadline (epoch millis) after which deposits — and, unless the pool
    /// is returnable, withdrawals — are refused.
    pub closing_date: u64,
    /// The per-account vaults.
    pub vaults: VaultStore,
    /// Total amount of tokens staked across all vaults.
    total: u128,
    /// Number of accounts currently registered.
    pub accounts_registered: u64,
    /// Destination of the end-of-program sweep.
    pub treasury: String,
    /// When true, users may withdraw even past the closing date, and the
    /// treasury sweep is never allowed.
    pub returnable: bool,
}

impl View for Contract {
    type V = PoolModel;

    closed spec fn view(&self) -> PoolModel {
        PoolModel {
            owner_id: self.owner_id@,
            staking_token: self.staking_token@,
            treasury: self.treasury@,
            is_active: self.is_active,
            closing_date: self.closing_date,
            returnable: self.returnable,
            total: self.total as nat,
            accounts_registered: self.accounts_registered as nat,
            vaults: self.vaults@,
        }
    }
}

/// The storage balance every registered account reports: the fixed
/// registration deposit, none of it available for partial withdrawal.
fn storage_balance() -> (r: StorageBalance)
    ensures
        r.total == NEAR_BALANCE,
        r.available == 0,
{
    StorageBalance { total: NEAR_BALANCE, available: 0 }
}

impl Contract {
    /// Initializes the pool with the token it accepts, the administrative
    /// accounts and the closing policy. The pool starts active and empty.
    pub fn new(
        owner_id: String,
        staking_token: String,
        treasury: String,
        returnable: bool,
        closing_date: u64,
    ) -> (r: Contract)
        ensures
            r@ == PoolModel::init(owner_id@, staking_token@, treasury@, returnable, closing_date),
            r@.wf(),
            r@.counts_consistent(),
    {
        Contract {
            owner_id,
            staking_token,
            is_active: true,
            closing_date,
            vaults: VaultStore::new(),
            total: 0,
            accounts_registered: 0,
            treasury,
            returnable,
        }
    }

    /// Read-only snapshot of the pool's parameters.
    pub fn get_contract_params(&self) -> (r: ContractParams)
        ensures
            r.owner_id@ == self@.owner_id,
            r.staked_token@ == self@.staking_token,
            r.is_active == self@.is_active,
            r.closing_date == self@.closing_date,
            r.total_staked as nat == self@.total,
            r.accounts_registered as nat == self@.accounts_registered,
    {
        ContractParams {
            owner_id: self.owner_id.clone(),
            staked_token: self.staking_token.clone(),
            is_active: self.is_active,
            closing_date: self.closing_date,
            total_staked: self.total,
            accounts_registered: self.accounts_registered,
        }
    }

    /// Amount of staked tokens of the given account; zero for an account
    /// without a vault, which is not an error here.
    pub fn status(&self, account_id: &String) -> (r: u128)
        requires
            self@.wf(),
        ensures
            self@.has_account(account_id@) ==> r as nat == self@.staked(account_id@),
            !self@.has_account(account_id@) ==> r == 0,
    {
        match self.vaults.get(account_id) {
            Some(staked) => staked,
            None => 0,
        }
    }

    /// Epoch milliseconds of a block timestamp given in nanoseconds.
    pub fn get_epoch_millis(block_timestamp: u64) -> (r: u64)
        ensures
            r == block_timestamp / NANOS_PER_MILLI,
    {
        block_timestamp / NANOS_PER_MILLI
    }

    /// Whether the closing date has passed at this time (epoch millis).
    fn is_contract_closed(&self, now: u64) -> (r: bool)
        ensures
            r == self@.is_closed(now),
    {
        now > self.closing_date
    }

    /// Flips the activity gate; only the owner may.
    pub fn set_active(&mut self, caller: &String, is_open: bool) -> (r: Result<(), PoolError>)
        ensures
            match old(self)@.spec_set_active(caller@, is_open) {
                Ok(m) => r == Ok::<(), PoolError>(()) && final(self)@ == m,
                Err(e) => r == Err::<(), PoolError>(e) && final(self)@ == old(self)@,
            },
            old(self)@.wf() ==> final(self)@.wf(),
            old(self)@.counts_consistent() ==> final(self)@.counts_consistent(),
    {
        if !(*caller == self.owner_id) {
            return Err(PoolError::NotOwner);
        }
        self.is_active = is_open;
        Ok(())
    }

    /// Moves the closing date; only the owner may.
    pub fn set_closing_date(&mut self, caller: &String, date: u64) -> (r: Result<(), PoolError>)
        ensures
            match old(self)@.spec_set_closing_date(caller@, date) {
                Ok(m) => r == Ok::<(), PoolError>(()) && final(self)@ == m,
                Err(e) => r == Err::<(), PoolError>(e) && final(self)@ == old(self)@,
            },
            old(self)@.wf() ==> final(self)@.wf(),
            old(self)@.counts_consistent() ==> final(self)@.counts_consistent(),
    {
        if !(*caller == self.owner_id) {
            return Err(PoolError::NotOwner);
        }
        self.closing_date = date;
        Ok(())
    }

    /// The registered account identifiers from `from_index`, at most `limit`
    /// of them, in the store's order.
    pub fn get_registered_accounts(&self, from_index: u64, limit: u64) -> (r: Vec<String>)
        requires
            self@.wf(),
            from_index + limit <= u64::MAX,
        ensures
            ({
                let end = if from_index + limit <= self@.vaults.len() {
                    from_index + limit
                } else {
                    self@.vaults.len() as int
                };
                &&& from_index >= end ==> r@.len() == 0
                &&& from_index < end ==> {
                    &&& r@.len() == end - from_index
                    &&& forall|k: int|
                        0 <= k < end - from_index ==> r@[k]@ == self@.vaults[from_index + k].account
                }
            }),
    {
        let n: usize = self.vaults.len();
        let len_u64: u64 = n as u64;
        let wanted: u64 = from_index + limit;
        let end: u64 = if wanted < len_u64 {
            wanted
        } else {
            len_u64
        };
        let mut out: Vec<String> = Vec::new();
        if from_index >= end {
            return out;
        }
        let mut i: u64 = from_index;
        while i < end
            invariant
                from_index <= i <= end,
                end <= len_u64,
                len_u64 == n as u64,
                n == self@.vaults.len(),
                self@.wf(),
                out@.len() == i - from_index,
                forall|k: int|
                    0 <= k < i - from_index ==> out@[k]@ == self@.vaults[from_index + k].account,
            decreases end - i,
        {
            let idx: usize = i as usize;
            assert(idx as int == i as int);
            out.push(self.vaults.account_at(idx).clone());
            i += 1;
        }
        out
    }

    /// Minimum and maximum storage deposit: both the fixed registration fee.
    pub fn storage_balance_bounds(&self) -> (r: StorageBalanceBounds)
        ensures
            r.min == NEAR_BALANCE,
            r.max == Some(NEAR_BALANCE),
    {
        StorageBalanceBounds { min: NEAR_BALANCE, max: Some(NEAR_BALANCE) }
    }

    /// The storage balance of a registered account, or nothing for an
    /// account without a vault.
    pub fn storage_balance_of(&self, account_id: &String) -> (r: Option<StorageBalance>)
        requires
            self@.wf(),
        ensures
            match r {
                Some(b) => self@.has_account(account_id@) && b.total == NEAR_BALANCE
                    && b.available == 0,
                None => !self@.has_account(account_id@),
            },
    {
        match self.vaults.get(account_id) {
            Some(_) => Some(storage_balance()),
            None => None,
        }
    }

    /// Partial withdrawal of the registration deposit is never possible:
    /// closing the account is the only way to reclaim it.
    pub fn storage_withdraw(&mut self, amount: Option<u128>) -> (r: Result<
        StorageBalance,
        PoolError,
    >)
        ensures
            r == Err::<StorageBalance, PoolError>(PoolError::StorageWithdrawUnsupported),
            final(self)@ == old(self)@,
    {
        let _ = amount;
        Err(PoolError::StorageWithdrawUnsupported)
    }

    /// A confirmed deposit of the staking token: credits the sender's vault
    /// and the total, with nothing dispatched — the credit is already final.
    /// `token` is the calling token contract; anything but the staking token
    /// is refused. Returns the unused part of the deposit, always zero.
    pub fn ft_on_transfer(
        &mut self,
        token: &String,
        sender_id: &String,
        amount: u128,
        now: u64,
    ) -> (r: Result<u128, PoolError>)
        requires
            old(self)@.wf(),
            old(self)@.ft_on_transfer_error(token@, sender_id@, amount, now) is None ==> old(
                self,
            )@.total + amount <= u128::MAX,
        ensures
            final(self)@.wf(),
            match old(self)@.spec_ft_on_transfer(token@, sender_id@, amount, now) {
                Ok(m) => r == Ok::<u128, PoolError>(0u128) && final(self)@ == m,
                Err(e) => r == Err::<u128, PoolError>(e) && final(self)@ == old(self)@,
            },
    {
        if !self.is_active {
            return Err(PoolError::NotActive);
        }
        if self.is_contract_closed(now) {
            return Err(PoolError::PoolClosed);
        }
        if !(*token == self.staking_token) {
            return Err(PoolError::WrongToken);
        }
        if amount == 0 {
            return Err(PoolError::ZeroAmount);
        }
        let staked = match self.vaults.get(sender_id) {
            None => {
                return Err(PoolError::UnregisteredAccount);
            },
            Some(staked) => staked,
        };
        let ghost m0 = self@;
        proof {
            lemma_element_le_sum(m0.vaults, vault_index(m0.vaults, sender_id@));
        }
        self.vaults.put(sender_id, staked + amount);
        self.total = self.total + amount;
        proof {
            let v = VaultModel { account: sender_id@, staked: (staked + amount) as nat };
            lemma_update_same_key(m0.vaults, sender_id@, v);
            lemma_sum_update(m0.vaults, vault_index(m0.vaults, sender_id@), v);
        }
        Ok(0)
    }

    /// The outbound transfer that hands unstaked tokens back: the host must
    /// dispatch it and later report the outcome to
    /// [`Contract::return_tokens_callback`].
    fn return_tokens(&self, user: &String, amount: u128) -> (r: TransferRequest)
        ensures
            r@.receiver_id == user@,
            r@.amount == amount as nat,
            r@.kind == TransferKind::UserReturn,
    {
        TransferRequest {
            receiver_id: user.clone(),
            amount,
            kind: TransferKind::UserReturn,
        }
    }

    /// Unstakes everything and closes the caller's account. With nothing
    /// staked only the registration deposit goes back; otherwise the whole
    /// stake leaves the ledger optimistically and its transfer is handed to
    /// the host with a continuation armed.
    pub fn close(&mut self, caller: &String, attached: u128, now: u64) -> (r: Result<
        CloseEffect,
        PoolError,
    >)
        requires
            old(self)@.wf(),
        ensures
            final(self)@.wf(),
            match old(self)@.spec_close(caller@, attached, now) {
                Ok((m, eff)) => r matches Ok(e) && final(self)@ == m && e@ == eff,
                Err(e) => r == Err::<CloseEffect, PoolError>(e) && final(self)@ == old(self)@,
            },
    {
        if !self.is_active {
            return Err(PoolError::NotActive);
        }
        if !self.returnable && self.is_contract_closed(now) {
            return Err(PoolError::PoolClosed);
        }
        if attached != 1 {
            return Err(PoolError::MissingAuthToken);
        }
        let staked = match self.vaults.get(caller) {
            None => {
                return Err(PoolError::UnregisteredAccount);
            },
            Some(staked) => staked,
        };
        let ghost m0 = self@;
        if staked == 0 {
            self.vaults.remove(caller);
            proof {
                lemma_remove_key(m0.vaults, caller@);
                lemma_sum_remove(m0.vaults, vault_index(m0.vaults, caller@));
            }
            return Ok(CloseEffect::DepositRefund);
        }
        proof {
            lemma_element_le_sum(m0.vaults, vault_index(m0.vaults, caller@));
        }
        self.total = self.total - staked;
        self.vaults.remove(caller);
        self.accounts_registered = self.accounts_registered - 1;
        proof {
            lemma_remove_key(m0.vaults, caller@);
            lemma_sum_remove(m0.vaults, vault_index(m0.vaults, caller@));
        }
        Ok(CloseEffect::TokenReturn(self.return_tokens(caller, staked)))
    }

    /// Unstakes the given amount. Asking for exactly the staked amount
    /// closes the account; a smaller amount is debited optimistically and
    /// its transfer handed to the host with a continuation armed. The
    /// amount reported back is the stake the ledger still records for the
    /// caller — zero when the call degenerated into a close, since the
    /// optimistic local state then records nothing for the account.
    pub fn unstake(&mut self, caller: &String, attached: u128, now: u64, amount: u128) -> (r:
        Result<(u128, CloseEffect), PoolError>)
        requires
            old(self)@.wf(),
        ensures
            final(self)@.wf(),
            match old(self)@.spec_unstake(caller@, attached, now, amount) {
                Ok((m, left, eff)) => r matches Ok(v) && final(self)@ == m && v.0 as nat == left
                    && v.1@ == eff,
                Err(e) => r == Err::<(u128, CloseEffect), PoolError>(e) && final(self)@ == old(
                    self,
                )@,
            },
    {
        if !self.is_active {
            return Err(PoolError::NotActive);
        }
        if !self.returnable && self.is_contract_closed(now) {
            return Err(PoolError::PoolClosed);
        }
        if attached != 1 {
            return Err(PoolError::MissingAuthToken);
        }
        let staked = match self.vaults.get(caller) {
            None => {
                return Err(PoolError::UnregisteredAccount);
            },
            Some(staked) => staked,
        };
        if amount > staked {
            return Err(PoolError::InsufficientStake);
        }
        if amount == staked {
            // Unstaking everything closes the account, so a vault is never
            // left behind with nothing staked; nothing remains staked to
            // report.
            return match self.close(caller, attached, now) {
                Ok(eff) => Ok((0, eff)),
                Err(e) => Err(e),
            };
        }
        let ghost m0 = self@;
        proof {
            lemma_element_le_sum(m0.vaults, vault_index(m0.vaults, caller@));
        }
        self.vaults.put(caller, staked - amount);
        self.total = self.total - amount;
        proof {
            let v = VaultModel { account: caller@, staked: (staked - amount) as nat };
            lemma_update_same_key(m0.vaults, caller@, v);
            lemma_sum_update(m0.vaults, vault_index(m0.vaults, caller@), v);
        }
        Ok((staked - amount, CloseEffect::TokenReturn(self.return_tokens(caller, amount))))
    }

    /// A registration deposit. An already-registered target gets the whole
    /// attachment back; otherwise a vault with nothing staked is created and
    /// the excess over the fixed fee goes back. The second value returned is
    /// the refund the host must transfer to the caller, zero for none.
    pub fn storage_deposit(
        &mut self,
        caller: &String,
        attached: u128,
        now: u64,
        account_id: Option<String>,
    ) -> (r: Result<(StorageBalance, u128), PoolError>)
        requires
            old(self)@.wf(),
            ({
                let target = match account_id {
                    Some(a) => a@,
                    None => caller@,
                };
                old(self)@.storage_deposit_error(target, attached, now) is None && !old(
                    self,
                )@.has_account(target)
            }) ==> old(self)@.accounts_registered < u64::MAX,
        ensures
            final(self)@.wf(),
            ({
                let target = match account_id {
                    Some(a) => a@,
                    None => caller@,
                };
                match old(self)@.spec_storage_deposit(target, attached, now) {
                    Ok((m, refund)) => r matches Ok(v) && final(self)@ == m && v.0.total
                        == NEAR_BALANCE && v.0.available == 0 && v.1 as nat == refund,
                    Err(e) => r == Err::<(StorageBalance, u128), PoolError>(e) && final(self)@
                        == old(self)@,
                }
            }),
    {
        if !self.is_active {
            return Err(PoolError::NotActive);
        }
        if self.is_contract_closed(now) {
            return Err(PoolError::PoolClosed);
        }
        let target: &String = match &account_id {
            Some(a) => a,
            None => caller,
        };
        match self.vaults.get(target) {
            Some(_) => {
                // Idempotent re-registration: no second vault, the whole
                // attachment goes back.
                Ok((storage_balance(), attached))
            },
            None => {
                if attached < NEAR_BALANCE {
                    return Err(PoolError::InsufficientDeposit);
                }
                let ghost m0 = self@;
                self.vaults.put(target, 0);
                self.accounts_registered = self.accounts_registered + 1;
                proof {
                    let v = VaultModel { account: target@, staked: 0 };
                    lemma_push_new_key(m0.vaults, v);
                    lemma_sum_push(m0.vaults, v);
                }
                Ok((storage_balance(), attached - NEAR_BALANCE))
            },
        }
    }

    /// Forced unregistration closes the account like [`Contract::close`];
    /// without force the call changes nothing and reports `false`.
    pub fn storage_unregister(
        &mut self,
        caller: &String,
        attached: u128,
        now: u64,
        force: Option<bool>,
    ) -> (r: Result<(bool, Option<CloseEffect>), PoolError>)
        requires
            old(self)@.wf(),
        ensures
            final(self)@.wf(),
            match old(self)@.spec_storage_unregister(caller@, attached, now, force) {
                Ok((m, unregistered, eff)) => r matches Ok(v) && final(self)@ == m && v.0
                    == unregistered && (match (v.1, eff) {
                    (Some(e), Some(em)) => e@ == em,
                    (None, None) => true,
                    _ => false,
                }),
                Err(e) => r == Err::<(bool, Option<CloseEffect>), PoolError>(e) && final(self)@
                    == old(self)@,
            },
    {
        if !self.is_active {
            return Err(PoolError::NotActive);
        }
        if !self.returnable && self.is_contract_closed(now) {
            return Err(PoolError::PoolClosed);
        }
        match force {
            Some(true) => match self.close(caller, attached, now) {
                Ok(eff) => Ok((true, Some(eff))),
                Err(e) => Err(e),
            },
            _ => Ok((false, None)),
        }
    }

    /// The treasury sweep: asks the host to transfer the whole running total
    /// to the treasury, with the treasury continuation armed. Only for a
    /// non-returnable pool past its closing date, and only for the owner.
    /// The local ledger is not debited: stakes and total stand as recorded.
    pub fn withdraw_tokens(&self, caller: &String, now: u64) -> (r: Result<
        TransferRequest,
        PoolError,
    >)
        ensures
            match self@.spec_withdraw_tokens(caller@, now) {
                Ok(t) => r matches Ok(req) && req@ == t,
                Err(e) => r == Err::<TransferRequest, PoolError>(e),
            },
    {
        if self.returnable {
            return Err(PoolError::PoolReturnable);
        }
        if !self.is_contract_closed(now) {
            return Err(PoolError::PoolNotClosed);
        }
        if !(*caller == self.owner_id) {
            return Err(PoolError::NotOwner);
        }
        Ok(
            TransferRequest {
                receiver_id: self.treasury.clone(),
                amount: self.total,
                kind: TransferKind::TreasurySweep,
            },
        )
    }

    /// Credit a compensation back to a vault, resurrecting the vault — and
    /// re-counting the account — if a close removed it in the meantime.
    fn recover_state(&mut self, user: &String, staked: u128)
        requires
            old(self)@.wf(),
            old(self)@.total + staked <= u128::MAX,
            !old(self)@.has_account(user@) ==> old(self)@.accounts_registered < u64::MAX,
        ensures
            final(self)@.wf(),
            final(self)@ == old(self)@.with_recovery(user@, staked as nat),
    {
        let ghost m0 = self@;
        match self.vaults.get(user) {
            Some(held) => {
                proof {
                    lemma_element_le_sum(m0.vaults, vault_index(m0.vaults, user@));
                }
                self.vaults.put(user, held + staked);
                proof {
                    let v = VaultModel { account: user@, staked: (held + staked) as nat };
                    lemma_update_same_key(m0.vaults, user@, v);
                    lemma_sum_update(m0.vaults, vault_index(m0.vaults, user@), v);
                }
            },
            None => {
                // The vault was closed by another call before this outcome
                // arrived: crediting back must resurrect the account, or the
                // funds would be lost.
                self.vaults.put(user, staked);
                self.accounts_registered = self.accounts_registered + 1;
                proof {
                    let v = VaultModel { account: user@, staked: staked as nat };
                    lemma_push_new_key(m0.vaults, v);
                    lemma_sum_push(m0.vaults, v);
                }
            },
        }
        self.total = self.total + staked;
    }

    /// The continuation of a user-bound transfer, fired by the host exactly
    /// once per dispatch. Success confirms the earlier optimistic debit;
    /// failure credits the amount back to the user's vault, resurrecting it
    /// if a close removed it in the meantime.
    pub fn return_tokens_callback(&mut self, user: &String, amount: u128, outcome: TransferOutcome)
        requires
            old(self)@.wf(),
            outcome == TransferOutcome::Failed ==> old(self)@.total + amount <= u128::MAX,
            (outcome == TransferOutcome::Failed && !old(self)@.has_account(user@)) ==> old(
                self,
            )@.accounts_registered < u64::MAX,
        ensures
            final(self)@.wf(),
            final(self)@ == old(self)@.spec_return_tokens_callback(user@, amount, outcome),
    {
        match outcome {
            TransferOutcome::Succeeded => {},
            TransferOutcome::Failed => {
                self.recover_state(user, amount);
            },
        }
    }

    /// The continuation of a treasury sweep. The sweep left the ledger as it
    /// was, so success changes nothing and failure already finds the total
    /// at its pre-sweep amount.
    #[allow(unused_variables)]
    pub fn return_tokens_treasury_callback(&mut self, amount: u128, outcome: TransferOutcome)
        ensures
            final(self)@ == old(self)@,
    {
    }
}

} // verus!
