//! The mathematical model of the pool: a sequence of per-account vault
//! records, the sum of their stakes, and the facts about lookups, credits,
//! debits, insertions and removals that the executable code is proved
//! against.

use vstd::prelude::*;

use crate::constants::NEAR_BALANCE;
use crate::errors::PoolError;
use crate::interfaces::{CloseEffectModel, TransferKind, TransferModel, TransferOutcome};

verus! {

/// One account's record: its identifier and its staked amount.
pub struct VaultModel {
    pub account: Seq<char>,
    pub staked: nat,
}

/// No two records share an account identifier.
pub open spec fn keys_unique(s: Seq<VaultModel>) -> bool {
    forall|i: int, j: int| 0 <= i < j < s.len() ==> s[i].account != s[j].account
}

/// Some record carries this account.
pub open spec fn has_vault(s: Seq<VaultModel>, account: Seq<char>) -> bool {
    exists|i: int| 0 <= i < s.len() && s[i].account == account
}

/// The index of the record carrying this account; meaningful when
/// `has_vault` holds and the keys are unique.
pub open spec fn vault_index(s: Seq<VaultModel>, account: Seq<char>) -> int {
    choose|i: int| 0 <= i < s.len() && s[i].account == account
}

/// The staked amount recorded for this account.
pub open spec fn staked_of(s: Seq<VaultModel>, account: Seq<char>) -> nat {
    s[vault_index(s, account)].staked
}

/// The sum of all staked amounts.
pub open spec fn staked_sum(s: Seq<VaultModel>) -> nat
    decreases s.len(),
{
    if s.len() == 0 {
        0
    } else {
        (s[0].staked + staked_sum(s.drop_first())) as nat
    }
}

/// With unique keys, the index found for a key that some record carries is
/// the only one carrying it.
pub proof fn lemma_vault_index_unique(s: Seq<VaultModel>, account: Seq<char>, i: int)
    requires
        keys_unique(s),
        0 <= i < s.len(),
        s[i].account == account,
    ensures
        vault_index(s, account) == i,
        has_vault(s, account),
{
    assert(has_vault(s, account));
    let j = vault_index(s, account);
    assert(0 <= j < s.len() && s[j].account == account);
    if i < j {
        assert(s[i].account != s[j].account);
    } else if j < i {
        assert(s[j].account != s[i].account);
    }
}

/// Replacing one record changes the sum by the difference of the stakes.
pub proof fn lemma_sum_update(s: Seq<VaultModel>, i: int, v: VaultModel)
    requires
        0 <= i < s.len(),
    ensures
        staked_sum(s.update(i, v)) == staked_sum(s) - s[i].staked + v.staked,
    decreases s.len(),
{
    if i == 0 {
        assert(s.update(0, v).drop_first() =~= s.drop_first());
    } else {
        assert(s.update(i, v).drop_first() =~= s.drop_first().update(i - 1, v));
        lemma_sum_update(s.drop_first(), i - 1, v);
    }
}

/// Appending a record adds its stake to the sum.
pub proof fn lemma_sum_push(s: Seq<VaultModel>, v: VaultModel)
    ensures
        staked_sum(s.push(v)) == staked_sum(s) + v.staked,
    decreases s.len(),
{
    if s.len() == 0 {
        assert(s.push(v)[0] == v);
        assert(s.push(v).drop_first() =~= Seq::<VaultModel>::empty());
        assert(staked_sum(Seq::<VaultModel>::empty()) == 0);
    } else {
        assert(s.push(v)[0] == s[0]);
        assert(s.push(v).drop_first() =~= s.drop_first().push(v));
        lemma_sum_push(s.drop_first(), v);
    }
}

/// Removing a record subtracts its stake from the sum.
pub proof fn lemma_sum_remove(s: Seq<VaultModel>, i: int)
    requires
        0 <= i < s.len(),
    ensures
        staked_sum(s.remove(i)) == staked_sum(s) - s[i].staked,
    decreases s.len(),
{
    if i == 0 {
        assert(s.remove(0) =~= s.drop_first());
    } else {
        assert(s.remove(i).drop_first() =~= s.drop_first().remove(i - 1));
        lemma_sum_remove(s.drop_first(), i - 1);
    }
}

/// No single stake exceeds the sum.
pub proof fn lemma_element_le_sum(s: Seq<VaultModel>, i: int)
    requires
        0 <= i < s.len(),
    ensures
        s[i].staked <= staked_sum(s),
    decreases s.len(),
{
    if i > 0 {
        lemma_element_le_sum(s.drop_first(), i - 1);
    }
}

/// Overwriting a record with one carrying the same account keeps the keys
/// unique and leaves every other account's record untouched.
pub proof fn lemma_update_same_key(s: Seq<VaultModel>, a: Seq<char>, v: VaultModel)
    requires
        keys_unique(s),
        has_vault(s, a),
        v.account == a,
    ensures
        keys_unique(s.update(vault_index(s, a), v)),
        has_vault(s.update(vault_index(s, a), v), a),
        staked_of(s.update(vault_index(s, a), v), a) == v.staked,
        forall|b: Seq<char>|
            b != a ==> #[trigger] has_vault(s.update(vault_index(s, a), v), b) == has_vault(s, b),
        forall|b: Seq<char>|
            b != a && has_vault(s, b) ==> #[trigger] staked_of(s.update(vault_index(s, a), v), b)
                == staked_of(s, b),
{
    let i = vault_index(s, a);
    let s2 = s.update(i, v);
    assert(0 <= i < s.len() && s[i].account == a);
    lemma_vault_index_unique(s2, a, i);
    assert forall|b: Seq<char>| b != a implies #[trigger] has_vault(s2, b) == has_vault(s, b) by {
        if has_vault(s, b) {
            let j = vault_index(s, b);
            assert(s2[j].account == b);
        }
        if has_vault(s2, b) {
            let j = choose|j: int| 0 <= j < s2.len() && s2[j].account == b;
            assert(s[j].account == b);
            assert(has_vault(s, b));
        }
    }
    assert forall|b: Seq<char>| b != a && has_vault(s, b) implies #[trigger] staked_of(s2, b)
        == staked_of(s, b) by {
        let j = vault_index(s, b);
        assert(0 <= j < s.len() && s[j].account == b);
        assert(s2[j].account == b);
        lemma_vault_index_unique(s2, b, j);
    }
}

/// Appending a record for an account no record carries keeps the keys
/// unique and leaves every other account's record untouched.
pub proof fn lemma_push_new_key(s: Seq<VaultModel>, v: VaultModel)
    requires
        keys_unique(s),
        !has_vault(s, v.account),
    ensures
        keys_unique(s.push(v)),
        has_vault(s.push(v), v.account),
        staked_of(s.push(v), v.account) == v.staked,
        forall|b: Seq<char>|
            b != v.account ==> #[trigger] has_vault(s.push(v), b) == has_vault(s, b),
        forall|b: Seq<char>|
            b != v.account && has_vault(s, b) ==> #[trigger] staked_of(s.push(v), b) == staked_of(
                s,
                b,
            ),
{
    let s2 = s.push(v);
    assert(s2[s.len() as int] == v);
    assert forall|i: int, j: int| 0 <= i < j < s2.len() implies s2[i].account != s2[j].account by {
        if j < s.len() {
            assert(s[i].account != s[j].account);
        } else {
            assert(s2[i] == s[i]);
            if s[i].account == v.account {
                assert(has_vault(s, v.account));
            }
        }
    }
    lemma_vault_index_unique(s2, v.account, s.len() as int);
    assert forall|b: Seq<char>| b != v.account implies #[trigger] has_vault(s2, b) == has_vault(
        s,
        b,
    ) by {
        if has_vault(s, b) {
            let j = vault_index(s, b);
            assert(s2[j].account == b);
        }
        if has_vault(s2, b) {
            let j = choose|j: int| 0 <= j < s2.len() && s2[j].account == b;
            assert(j < s.len());
            assert(has_vault(s, b));
        }
    }
    assert forall|b: Seq<char>| b != v.account && has_vault(s, b) implies #[trigger] staked_of(
        s2,
        b,
    ) == staked_of(s, b) by {
        let j = vault_index(s, b);
        assert(0 <= j < s.len() && s[j].account == b);
        assert(s2[j].account == b);
        lemma_vault_index_unique(s2, b, j);
    }
}

/// Removing an account's record keeps the keys unique, removes exactly that
/// account, and leaves every other account's record untouched.
pub proof fn lemma_remove_key(s: Seq<VaultModel>, a: Seq<char>)
    requires
        keys_unique(s),
        has_vault(s, a),
    ensures
        keys_unique(s.remove(vault_index(s, a))),
        !has_vault(s.remove(vault_index(s, a)), a),
        forall|b: Seq<char>|
            b != a ==> #[trigger] has_vault(s.remove(vault_index(s, a)), b) == has_vault(s, b),
        forall|b: Seq<char>|
            b != a && has_vault(s, b) ==> #[trigger] staked_of(s.remove(vault_index(s, a)), b)
                == staked_of(s, b),
{
    let i = vault_index(s, a);
    let s2 = s.remove(i);
    assert(0 <= i < s.len() && s[i].account == a);
    s.remove_ensures(i);
    assert forall|p: int, q: int| 0 <= p < q < s2.len() implies s2[p].account != s2[q].account by {
        let p0: int = if p < i {
            p
        } else {
            p + 1
        };
        let q0: int = if q < i {
            q
        } else {
            q + 1
        };
        assert(s2[p] == s[p0]);
        assert(s2[q] == s[q0]);
        assert(s[p0].account != s[q0].account);
    }
    assert forall|j: int| 0 <= j < s2.len() implies s2[j].account != a by {
        let j0: int = if j < i {
            j
        } else {
            j + 1
        };
        assert(s2[j] == s[j0]);
        if s[j0].account == a {
            lemma_vault_index_unique(s, a, j0);
        }
    }
    assert forall|b: Seq<char>| b != a implies #[trigger] has_vault(s2, b) == has_vault(s, b) by {
        if has_vault(s, b) {
            let j = vault_index(s, b);
            assert(0 <= j < s.len() && s[j].account == b);
            let j2: int = if j < i {
                j
            } else {
                j - 1
            };
            assert(s2[j2] == s[j]);
            assert(has_vault(s2, b));
        }
        if has_vault(s2, b) {
            let j = choose|j: int| 0 <= j < s2.len() && s2[j].account == b;
            let j0: int = if j < i {
                j
            } else {
                j + 1
            };
            assert(s2[j] == s[j0]);
            assert(has_vault(s, b));
        }
    }
    assert forall|b: Seq<char>| b != a && has_vault(s, b) implies #[trigger] staked_of(s2, b)
        == staked_of(s, b) by {
        let j = vault_index(s, b);
        assert(0 <= j < s.len() && s[j].account == b);
        let j2: int = if j < i {
            j
        } else {
            j - 1
        };
        assert(s2[j2] == s[j]);
        lemma_vault_index_unique(s2, b, j2);
    }
}

/// The aggregate pool state: identifiers and gates, the running total, the
/// registered-account count, and the vault records.
pub struct PoolModel {
    pub owner_id: Seq<char>,
    pub staking_token: Seq<char>,
    pub treasury: Seq<char>,
    pub is_active: bool,
    pub closing_date: u64,
    pub returnable: bool,
    pub total: nat,
    pub accounts_registered: nat,
    pub vaults: Seq<VaultModel>,
}

impl PoolModel {
    /// The pool's standing invariant: vault keys are pairwise distinct, the
    /// running total equals the sum of the stakes, and the registered count
    /// never falls below the number of live vaults.
    pub open spec fn wf(self) -> bool {
        &&& keys_unique(self.vaults)
        &&& self.total == staked_sum(self.vaults)
        &&& self.vaults.len() <= self.accounts_registered
    }

    /// The registered-account count equals the number of live vaults. Holds
    /// on every path except the fast close of a vault with nothing staked,
    /// which removes the vault without touching the count.
    pub open spec fn counts_consistent(self) -> bool {
        self.accounts_registered == self.vaults.len()
    }

    /// Whether the closing date has passed at this time (epoch millis).
    pub open spec fn is_closed(self, now: u64) -> bool {
        now > self.closing_date
    }

    pub open spec fn has_account(self, a: Seq<char>) -> bool {
        has_vault(self.vaults, a)
    }

    pub open spec fn staked(self, a: Seq<char>) -> nat {
        staked_of(self.vaults, a)
    }

    /// The freshly initialized pool.
    pub open spec fn init(
        owner_id: Seq<char>,
        staking_token: Seq<char>,
        treasury: Seq<char>,
        returnable: bool,
        closing_date: u64,
    ) -> PoolModel {
        PoolModel {
            owner_id,
            staking_token,
            treasury,
            is_active: true,
            closing_date,
            returnable,
            total: 0,
            accounts_registered: 0,
            vaults: Seq::empty(),
        }
    }

    /// Credit a registered account: its stake and the total grow together.
    pub open spec fn with_credit(self, a: Seq<char>, amount: nat) -> PoolModel
        recommends
            self.has_account(a),
    {
        let i = vault_index(self.vaults, a);
        PoolModel {
            total: (self.total + amount) as nat,
            vaults: self.vaults.update(
                i,
                VaultModel { account: a, staked: (self.vaults[i].staked + amount) as nat },
            ),
            ..self
        }
    }

    /// Debit part of a registered account's stake: stake and total shrink
    /// together; the vault stays.
    pub open spec fn with_debit(self, a: Seq<char>, amount: nat) -> PoolModel
        recommends
            self.has_account(a),
            amount <= self.staked(a),
    {
        let i = vault_index(self.vaults, a);
        PoolModel {
            total: (self.total - amount) as nat,
            vaults: self.vaults.update(
                i,
                VaultModel { account: a, staked: (self.vaults[i].staked - amount) as nat },
            ),
            ..self
        }
    }

    /// The fast close of a vault with nothing staked: the vault goes, the
    /// total and — deliberately, as observed behaviour — the registered
    /// count stay.
    pub open spec fn with_zero_close(self, a: Seq<char>) -> PoolModel
        recommends
            self.has_account(a),
            self.staked(a) == 0,
    {
        PoolModel { vaults: self.vaults.remove(vault_index(self.vaults, a)), ..self }
    }

    /// Close an account with a stake: the whole stake leaves the total, the
    /// vault goes, the registered count drops.
    pub open spec fn with_close(self, a: Seq<char>) -> PoolModel
        recommends
            self.has_account(a),
            self.staked(a) > 0,
    {
        PoolModel {
            total: (self.total - self.staked(a)) as nat,
            accounts_registered: (self.accounts_registered - 1) as nat,
            vaults: self.vaults.remove(vault_index(self.vaults, a)),
            ..self
        }
    }

    /// Register an account: a vault with nothing staked, counted.
    pub open spec fn with_new_vault(self, a: Seq<char>) -> PoolModel
        recommends
            !self.has_account(a),
    {
        PoolModel {
            accounts_registered: self.accounts_registered + 1,
            vaults: self.vaults.push(VaultModel { account: a, staked: 0 }),
            ..self
        }
    }

    /// Compensate a failed outbound transfer: credit the amount back to the
    /// account's vault, resurrecting the vault if a close removed it in the
    /// meantime.
    pub open spec fn with_recovery(self, a: Seq<char>, amount: nat) -> PoolModel {
        if self.has_account(a) {
            self.with_credit(a, amount)
        } else {
            PoolModel {
                total: (self.total + amount) as nat,
                accounts_registered: self.accounts_registered + 1,
                vaults: self.vaults.push(VaultModel { account: a, staked: amount }),
                ..self
            }
        }
    }

    /// What every user-initiated withdrawal demands, tested in this
    /// order: the pool must be active, the closing date must not have
    /// arrived unless stakes are returnable, and exactly one unit of the
    /// native currency must be attached as authorization.
    pub open spec fn withdrawal_gate_error(self, attached: u128, now: u64) -> Option<PoolError> {
        if !self.is_active {
            Some(PoolError::NotActive)
        } else if !self.returnable && self.is_closed(now) {
            Some(PoolError::PoolClosed)
        } else if attached != 1 {
            Some(PoolError::MissingAuthToken)
        } else {
            None
        }
    }

    /// Why a token deposit would be refused, or nothing if it is accepted.
    pub open spec fn ft_on_transfer_error(
        self,
        token: Seq<char>,
        sender: Seq<char>,
        amount: u128,
        now: u64,
    ) -> Option<PoolError> {
        if !self.is_active {
            Some(PoolError::NotActive)
        } else if self.is_closed(now) {
            Some(PoolError::PoolClosed)
        } else if token != self.staking_token {
            Some(PoolError::WrongToken)
        } else if amount == 0 {
            Some(PoolError::ZeroAmount)
        } else if !self.has_account(sender) {
            Some(PoolError::UnregisteredAccount)
        } else {
            None
        }
    }

    /// The whole deposit path: either the reason it is refused, or the pool
    /// with the sender's vault and the total credited.
    pub open spec fn spec_ft_on_transfer(
        self,
        token: Seq<char>,
        sender: Seq<char>,
        amount: u128,
        now: u64,
    ) -> Result<PoolModel, PoolError> {
        match self.ft_on_transfer_error(token, sender, amount, now) {
            Some(e) => Err(e),
            None => Ok(self.with_credit(sender, amount as nat)),
        }
    }

    /// Why a close would be refused, or nothing if it goes through.
    pub open spec fn close_error(self, caller: Seq<char>, attached: u128, now: u64) -> Option<
        PoolError,
    > {
        match self.withdrawal_gate_error(attached, now) {
            Some(e) => Some(e),
            None => if !self.has_account(caller) {
                Some(PoolError::UnregisteredAccount)
            } else {
                None
            },
        }
    }

    /// The whole close path: the new pool and what the host must do — refund
    /// the registration deposit when nothing was staked, or dispatch the
    /// whole stake back to the caller with a continuation armed.
    pub open spec fn spec_close(self, caller: Seq<char>, attached: u128, now: u64) -> Result<
        (PoolModel, CloseEffectModel),
        PoolError,
    > {
        match self.close_error(caller, attached, now) {
            Some(e) => Err(e),
            None => if self.staked(caller) == 0 {
                Ok((self.with_zero_close(caller), CloseEffectModel::DepositRefund))
            } else {
                Ok(
                    (
                        self.with_close(caller),
                        CloseEffectModel::TokenReturn(
                            TransferModel {
                                receiver_id: caller,
                                amount: self.staked(caller),
                                kind: TransferKind::UserReturn,
                            },
                        ),
                    ),
                )
            },
        }
    }

    /// Why an unstake would be refused, or nothing if it goes through.
    pub open spec fn unstake_error(
        self,
        caller: Seq<char>,
        attached: u128,
        now: u64,
        amount: u128,
    ) -> Option<PoolError> {
        match self.withdrawal_gate_error(attached, now) {
            Some(e) => Some(e),
            None => if !self.has_account(caller) {
                Some(PoolError::UnregisteredAccount)
            } else if amount as nat > self.staked(caller) {
                Some(PoolError::InsufficientStake)
            } else {
                None
            },
        }
    }

    /// The whole unstake path, reporting back the stake the ledger still
    /// records for the caller. Asking for exactly the staked amount
    /// degenerates into a close, after which nothing remains staked, so
    /// zero is reported. A smaller amount is debited optimistically and
    /// dispatched, and the remaining stake is reported.
    pub open spec fn spec_unstake(
        self,
        caller: Seq<char>,
        attached: u128,
        now: u64,
        amount: u128,
    ) -> Result<(PoolModel, nat, CloseEffectModel), PoolError> {
        match self.unstake_error(caller, attached, now, amount) {
            Some(e) => Err(e),
            None => if amount as nat == self.staked(caller) {
                match self.spec_close(caller, attached, now) {
                    Ok((m, eff)) => Ok((m, 0, eff)),
                    Err(e) => Err(e),
                }
            } else {
                Ok(
                    (
                        self.with_debit(caller, amount as nat),
                        (self.staked(caller) - amount) as nat,
                        CloseEffectModel::TokenReturn(
                            TransferModel {
                                receiver_id: caller,
                                amount: amount as nat,
                                kind: TransferKind::UserReturn,
                            },
                        ),
                    ),
                )
            },
        }
    }

    /// Why a registration deposit would be refused, or nothing if it is
    /// accepted.
    pub open spec fn storage_deposit_error(
        self,
        target: Seq<char>,
        attached: u128,
        now: u64,
    ) -> Option<PoolError> {
        if !self.is_active {
            Some(PoolError::NotActive)
        } else if self.is_closed(now) {
            Some(PoolError::PoolClosed)
        } else if !self.has_account(target) && attached < NEAR_BALANCE {
            Some(PoolError::InsufficientDeposit)
        } else {
            None
        }
    }

    /// The whole registration path: an already-registered target leaves the
    /// pool as it is and the whole attachment goes back; otherwise a vault
    /// with nothing staked is created and only the excess over the fixed fee
    /// goes back.
    pub open spec fn spec_storage_deposit(
        self,
        target: Seq<char>,
        attached: u128,
        now: u64,
    ) -> Result<(PoolModel, nat), PoolError> {
        match self.storage_deposit_error(target, attached, now) {
            Some(e) => Err(e),
            None => if self.has_account(target) {
                Ok((self, attached as nat))
            } else {
                Ok((self.with_new_vault(target), (attached - NEAR_BALANCE) as nat))
            },
        }
    }

    /// The whole forced-unregistration path: without force it is a refused
    /// no-op (after the activity and closing gates); with force it is a
    /// close.
    pub open spec fn spec_storage_unregister(
        self,
        caller: Seq<char>,
        attached: u128,
        now: u64,
        force: Option<bool>,
    ) -> Result<(PoolModel, bool, Option<CloseEffectModel>), PoolError> {
        if !self.is_active {
            Err(PoolError::NotActive)
        } else if !self.returnable && self.is_closed(now) {
            Err(PoolError::PoolClosed)
        } else if force != Some(true) {
            Ok((self, false, None))
        } else {
            match self.spec_close(caller, attached, now) {
                Ok((m, eff)) => Ok((m, true, Some(eff))),
                Err(e) => Err(e),
            }
        }
    }

    /// Why the treasury sweep would be refused, tested in this order.
    pub open spec fn withdraw_tokens_error(self, caller: Seq<char>, now: u64) -> Option<
        PoolError,
    > {
        if self.returnable {
            Some(PoolError::PoolReturnable)
        } else if !self.is_closed(now) {
            Some(PoolError::PoolNotClosed)
        } else if caller != self.owner_id {
            Some(PoolError::NotOwner)
        } else {
            None
        }
    }

    /// The treasury sweep: the whole running total is dispatched to the
    /// treasury with the treasury continuation armed. The local ledger is
    /// not debited: the per-account stakes and the total stand, so a failed
    /// sweep already leaves the total at its pre-sweep amount.
    pub open spec fn spec_withdraw_tokens(self, caller: Seq<char>, now: u64) -> Result<
        TransferModel,
        PoolError,
    > {
        match self.withdraw_tokens_error(caller, now) {
            Some(e) => Err(e),
            None => Ok(
                TransferModel {
                    receiver_id: self.treasury,
                    amount: self.total,
                    kind: TransferKind::TreasurySweep,
                },
            ),
        }
    }

    /// The continuation of a user-bound transfer: success confirms the
    /// earlier optimistic debit; failure credits the amount back,
    /// resurrecting the vault if it is gone.
    pub open spec fn spec_return_tokens_callback(
        self,
        user: Seq<char>,
        amount: u128,
        outcome: TransferOutcome,
    ) -> PoolModel {
        match outcome {
            TransferOutcome::Succeeded => self,
            TransferOutcome::Failed => self.with_recovery(user, amount as nat),
        }
    }

    /// Flipping the activity gate; owner only.
    pub open spec fn spec_set_active(self, caller: Seq<char>, is_open: bool) -> Result<
        PoolModel,
        PoolError,
    > {
        if caller != self.owner_id {
            Err(PoolError::NotOwner)
        } else {
            Ok(PoolModel { is_active: is_open, ..self })
        }
    }

    /// Moving the closing date; owner only.
    pub open spec fn spec_set_closing_date(self, caller: Seq<char>, date: u64) -> Result<
        PoolModel,
        PoolError,
    > {
        if caller != self.owner_id {
            Err(PoolError::NotOwner)
        } else {
            Ok(PoolModel { closing_date: date, ..self })
        }
    }
}

} // verus!
