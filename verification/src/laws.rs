//! The pool's global laws, stated over the model and proved once and for
//! all: the ledger invariant and its preservation by every operation, the
//! net effect of register–deposit–unstake round trips, the compensation and
//! resurrection behaviour of failed transfers, the idempotence of
//! re-registration, and the activity gate.

use vstd::prelude::*;

use crate::constants::NEAR_BALANCE;
use crate::errors::PoolError;
use crate::interfaces::TransferOutcome;
use crate::model::{lemma_element_le_sum, lemma_push_new_key, lemma_remove_key, lemma_sum_push, lemma_sum_remove,
    lemma_sum_update, lemma_update_same_key, staked_sum, vault_index, PoolModel, VaultModel};

verus! {

/// A freshly initialized pool satisfies the ledger invariant: no vaults, a
/// total of zero, and a registered count of zero.
pub proof fn lemma_init_invariant(
    owner_id: Seq<char>,
    staking_token: Seq<char>,
    treasury: Seq<char>,
    returnable: bool,
    closing_date: u64,
)
    ensures
        PoolModel::init(owner_id, staking_token, treasury, returnable, closing_date).wf(),
        PoolModel::init(
            owner_id,
            staking_token,
            treasury,
            returnable,
            closing_date,
        ).counts_consistent(),
{
    assert(staked_sum(Seq::<VaultModel>::empty()) == 0);
}

/// An accepted deposit preserves the ledger invariant: the total and the
/// sender's stake grow together, and the vault count is untouched.
pub proof fn lemma_ft_on_transfer_preserves_invariant(
    m: PoolModel,
    token: Seq<char>,
    sender: Seq<char>,
    amount: u128,
    now: u64,
)
    requires
        m.wf(),
    ensures
        m.spec_ft_on_transfer(token, sender, amount, now) matches Ok(m2) ==> m2.wf() && (
        m.counts_consistent() ==> m2.counts_consistent()),
{
    if m.ft_on_transfer_error(token, sender, amount, now) is None {
        let i = vault_index(m.vaults, sender);
        let v = VaultModel { account: sender, staked: (m.vaults[i].staked + amount) as nat };
        lemma_update_same_key(m.vaults, sender, v);
        lemma_sum_update(m.vaults, i, v);
    }
}

/// An accepted close preserves the ledger invariant. The registered count
/// stays consistent with the vaults whenever the closed vault still held a
/// stake; the fast close of an empty vault deliberately leaves the count
/// one above the number of vaults, as observed behaviour.
pub proof fn lemma_close_preserves_invariant(
    m: PoolModel,
    caller: Seq<char>,
    attached: u128,
    now: u64,
)
    requires
        m.wf(),
    ensures
        m.spec_close(caller, attached, now) matches Ok((m2, eff)) ==> m2.wf() && (
        m.counts_consistent() && m.staked(caller) > 0 ==> m2.counts_consistent()),
{
    if m.close_error(caller, attached, now) is None {
        let i = vault_index(m.vaults, caller);
        lemma_remove_key(m.vaults, caller);
        lemma_sum_remove(m.vaults, i);
    }
}

/// An accepted unstake preserves the ledger invariant; the registered count
/// stays consistent whenever the call is not the fast close of an empty
/// vault.
pub proof fn lemma_unstake_preserves_invariant(
    m: PoolModel,
    caller: Seq<char>,
    attached: u128,
    now: u64,
    amount: u128,
)
    requires
        m.wf(),
    ensures
        m.spec_unstake(caller, attached, now, amount) matches Ok((m2, left, eff)) ==> m2.wf() && (
        m.counts_consistent() && !(amount == 0 && m.staked(caller) == 0)
            ==> m2.counts_consistent()),
{
    if m.unstake_error(caller, attached, now, amount) is None {
        if amount as nat == m.staked(caller) {
            lemma_close_preserves_invariant(m, caller, attached, now);
        } else {
            let i = vault_index(m.vaults, caller);
            let v = VaultModel { account: caller, staked: (m.vaults[i].staked - amount) as nat };
            lemma_update_same_key(m.vaults, caller, v);
            lemma_sum_update(m.vaults, i, v);
        }
    }
}

/// An accepted registration deposit preserves the ledger invariant: a fresh
/// vault holds nothing, so the total is untouched, and the count grows with
/// the vaults.
pub proof fn lemma_storage_deposit_preserves_invariant(
    m: PoolModel,
    target: Seq<char>,
    attached: u128,
    now: u64,
)
    requires
        m.wf(),
    ensures
        m.spec_storage_deposit(target, attached, now) matches Ok((m2, refund)) ==> m2.wf() && (
        m.counts_consistent() ==> m2.counts_consistent()),
{
    if m.storage_deposit_error(target, attached, now) is None && !m.has_account(target) {
        let v = VaultModel { account: target, staked: 0 };
        lemma_push_new_key(m.vaults, v);
        lemma_sum_push(m.vaults, v);
    }
}

/// An accepted forced unregistration preserves the ledger invariant, as the
/// close it performs does.
pub proof fn lemma_storage_unregister_preserves_invariant(
    m: PoolModel,
    caller: Seq<char>,
    attached: u128,
    now: u64,
    force: Option<bool>,
)
    requires
        m.wf(),
    ensures
        m.spec_storage_unregister(caller, attached, now, force) matches Ok((m2, unregistered, eff))
            ==> m2.wf() && (m.counts_consistent() && !(unregistered && m.staked(caller) == 0)
            ==> m2.counts_consistent()),
{
    lemma_close_preserves_invariant(m, caller, attached, now);
}

/// A transfer outcome preserves the ledger invariant: success changes
/// nothing, and the compensating credit moves the vault and the total
/// together, re-counting the account exactly when it resurrects the vault.
pub proof fn lemma_return_tokens_callback_preserves_invariant(
    m: PoolModel,
    user: Seq<char>,
    amount: u128,
    outcome: TransferOutcome,
)
    requires
        m.wf(),
    ensures
        m.spec_return_tokens_callback(user, amount, outcome).wf(),
        m.counts_consistent() ==> m.spec_return_tokens_callback(
            user,
            amount,
            outcome,
        ).counts_consistent(),
{
    if outcome == TransferOutcome::Failed {
        if m.has_account(user) {
            let i = vault_index(m.vaults, user);
            let v = VaultModel { account: user, staked: (m.vaults[i].staked + amount) as nat };
            lemma_update_same_key(m.vaults, user, v);
            lemma_sum_update(m.vaults, i, v);
        } else {
            let v = VaultModel { account: user, staked: amount as nat };
            lemma_push_new_key(m.vaults, v);
            lemma_sum_push(m.vaults, v);
        }
    }
}

/// The administrative setters and the treasury sweep leave the ledger part
/// of the state — and with it the invariant — untouched.
pub proof fn lemma_admin_ops_preserve_invariant(m: PoolModel, caller: Seq<char>, flag: bool, date: u64)
    requires
        m.wf(),
    ensures
        m.spec_set_active(caller, flag) matches Ok(m2) ==> m2.wf() && (m.counts_consistent()
            ==> m2.counts_consistent()),
        m.spec_set_closing_date(caller, date) matches Ok(m2) ==> m2.wf() && (m.counts_consistent()
            ==> m2.counts_consistent()),
{
}

/// Registering an account, staking into it, and unstaking the whole stake
/// closes the account again and leaves the pool's total and registered
/// count exactly where they started: the round trip nets to zero.
pub proof fn lemma_round_trip_nets_to_zero(
    m: PoolModel,
    a: Seq<char>,
    fee: u128,
    amount: u128,
    now: u64,
)
    requires
        m.wf(),
        !m.has_account(a),
        m.is_active,
        !m.is_closed(now),
        fee >= NEAR_BALANCE,
        amount > 0,
    ensures
        ({
            let r1 = m.spec_storage_deposit(a, fee, now);
            &&& r1 is Ok
            &&& ({
                let m1 = r1->Ok_0.0;
                let r2 = m1.spec_ft_on_transfer(m.staking_token, a, amount, now);
                &&& r2 is Ok
                &&& ({
                    let m2 = r2->Ok_0;
                    let r3 = m2.spec_unstake(a, 1, now, amount);
                    &&& m2.staked(a) == amount
                    &&& r3 is Ok
                    &&& ({
                        let m3 = r3->Ok_0.0;
                        &&& !m3.has_account(a)
                        &&& m3.total == m.total
                        &&& m3.accounts_registered == m.accounts_registered
                        &&& m3.wf()
                    })
                })
            })
        }),
{
    let v0 = VaultModel { account: a, staked: 0 };
    lemma_push_new_key(m.vaults, v0);
    lemma_sum_push(m.vaults, v0);
    let m1 = m.spec_storage_deposit(a, fee, now)->Ok_0.0;
    let i1 = vault_index(m1.vaults, a);
    let v1 = VaultModel { account: a, staked: (m1.vaults[i1].staked + amount) as nat };
    lemma_update_same_key(m1.vaults, a, v1);
    lemma_sum_update(m1.vaults, i1, v1);
    let m2 = m1.spec_ft_on_transfer(m.staking_token, a, amount, now)->Ok_0;
    lemma_remove_key(m2.vaults, a);
    lemma_sum_remove(m2.vaults, vault_index(m2.vaults, a));
}

/// A partial unstake leaves the difference staked and the vault in place; a
/// second unstake of everything that is left closes and removes the vault.
pub proof fn lemma_partial_then_full_unstake(m: PoolModel, a: Seq<char>, first: u128, now: u64)
    requires
        m.wf(),
        m.has_account(a),
        m.is_active,
        m.returnable || !m.is_closed(now),
        (first as nat) < m.staked(a),
        m.staked(a) <= u128::MAX,
    ensures
        ({
            let r1 = m.spec_unstake(a, 1, now, first);
            &&& r1 is Ok
            &&& ({
                let m1 = r1->Ok_0.0;
                let rest = (m.staked(a) - first) as u128;
                let r2 = m1.spec_unstake(a, 1, now, rest);
                &&& m1.has_account(a)
                &&& m1.staked(a) == m.staked(a) - first
                &&& r1->Ok_0.1 == m.staked(a) - first
                &&& r2 is Ok
                &&& ({
                    let m2 = r2->Ok_0.0;
                    &&& r2->Ok_0.1 == 0
                    &&& !m2.has_account(a)
                    &&& m2.total == m.total - m.staked(a)
                    &&& m2.wf()
                })
            })
        }),
{
    let i = vault_index(m.vaults, a);
    lemma_stake_le_total(m, a);
    let v = VaultModel { account: a, staked: (m.vaults[i].staked - first) as nat };
    lemma_update_same_key(m.vaults, a, v);
    lemma_sum_update(m.vaults, i, v);
    let m1 = m.spec_unstake(a, 1, now, first)->Ok_0.0;
    lemma_remove_key(m1.vaults, a);
    lemma_sum_remove(m1.vaults, vault_index(m1.vaults, a));
}

/// One account's stake never exceeds the pool total.
pub proof fn lemma_stake_le_total(m: PoolModel, a: Seq<char>)
    requires
        m.wf(),
        m.has_account(a),
    ensures
        m.staked(a) <= m.total,
{
    lemma_element_le_sum(m.vaults, vault_index(m.vaults, a));
}

/// When the outbound transfer of a partial unstake fails, the compensating
/// credit restores the account's stake and the pool total to what they were
/// before the unstake was attempted.
pub proof fn lemma_unstake_failure_recovers(m: PoolModel, a: Seq<char>, amount: u128, now: u64)
    requires
        m.wf(),
        m.has_account(a),
        m.is_active,
        m.returnable || !m.is_closed(now),
        (amount as nat) < m.staked(a),
    ensures
        ({
            let r1 = m.spec_unstake(a, 1, now, amount);
            &&& r1 is Ok
            &&& ({
                let m1 = r1->Ok_0.0;
                let m2 = m1.spec_return_tokens_callback(a, amount, TransferOutcome::Failed);
                &&& m2.has_account(a)
                &&& m2.staked(a) == m.staked(a)
                &&& m2.total == m.total
                &&& m2.accounts_registered == m.accounts_registered
                &&& m2.wf()
            })
        }),
{
    let i = vault_index(m.vaults, a);
    let v = VaultModel { account: a, staked: (m.vaults[i].staked - amount) as nat };
    lemma_update_same_key(m.vaults, a, v);
    lemma_sum_update(m.vaults, i, v);
    let m1 = m.spec_unstake(a, 1, now, amount)->Ok_0.0;
    let i1 = vault_index(m1.vaults, a);
    let v1 = VaultModel { account: a, staked: (m1.vaults[i1].staked + amount) as nat };
    lemma_update_same_key(m1.vaults, a, v1);
    lemma_sum_update(m1.vaults, i1, v1);
}

/// When the outbound transfer of a close fails after the vault is already
/// gone, the compensating credit resurrects the vault with the whole amount
/// and restores the registered count and the total.
pub proof fn lemma_close_failure_resurrects(m: PoolModel, a: Seq<char>, now: u64)
    requires
        m.wf(),
        m.has_account(a),
        m.staked(a) > 0,
        m.staked(a) <= u128::MAX,
        m.is_active,
        m.returnable || !m.is_closed(now),
    ensures
        ({
            let r1 = m.spec_close(a, 1, now);
            &&& r1 is Ok
            &&& ({
                let m1 = r1->Ok_0.0;
                let m2 = m1.spec_return_tokens_callback(
                    a,
                    m.staked(a) as u128,
                    TransferOutcome::Failed,
                );
                &&& !m1.has_account(a)
                &&& m2.has_account(a)
                &&& m2.staked(a) == m.staked(a)
                &&& m2.total == m.total
                &&& m2.accounts_registered == m.accounts_registered
                &&& m2.wf()
            })
        }),
{
    let i = vault_index(m.vaults, a);
    lemma_stake_le_total(m, a);
    lemma_remove_key(m.vaults, a);
    lemma_sum_remove(m.vaults, i);
    let m1 = m.spec_close(a, 1, now)->Ok_0.0;
    let v = VaultModel { account: a, staked: m.staked(a) };
    lemma_push_new_key(m1.vaults, v);
    lemma_sum_push(m1.vaults, v);
}

/// Registering twice in a row creates one vault and counts one account: the
/// second call changes nothing and refunds its whole attachment.
pub proof fn lemma_re_registration_is_idempotent(
    m: PoolModel,
    a: Seq<char>,
    fee1: u128,
    fee2: u128,
    now: u64,
)
    requires
        m.wf(),
        !m.has_account(a),
        m.is_active,
        !m.is_closed(now),
        fee1 >= NEAR_BALANCE,
    ensures
        ({
            let r1 = m.spec_storage_deposit(a, fee1, now);
            &&& r1 is Ok
            &&& ({
                let m1 = r1->Ok_0.0;
                let r2 = m1.spec_storage_deposit(a, fee2, now);
                &&& m1.accounts_registered == m.accounts_registered + 1
                &&& r2 is Ok
                &&& r2->Ok_0.0 == m1
                &&& r2->Ok_0.1 == fee2
            })
        }),
{
    let v0 = VaultModel { account: a, staked: 0 };
    lemma_push_new_key(m.vaults, v0);
}

/// Once the owner turns the pool off, every deposit, unstake, close and
/// unregistration is refused with the inactive-pool error, whatever the
/// caller, amounts, time or balances.
pub proof fn lemma_deactivation_gates_everything(
    m: PoolModel,
    token: Seq<char>,
    sender: Seq<char>,
    caller: Seq<char>,
    attached: u128,
    now: u64,
    amount: u128,
    target: Seq<char>,
    force: Option<bool>,
)
    requires
        m.spec_set_active(m.owner_id, false) is Ok,
    ensures
        ({
            let m1 = m.spec_set_active(m.owner_id, false)->Ok_0;
            &&& m1.spec_ft_on_transfer(token, sender, amount, now) == Err::<PoolModel, PoolError>(
                PoolError::NotActive,
            )
            &&& m1.spec_unstake(caller, attached, now, amount) matches Err(e) && e
                == PoolError::NotActive
            &&& m1.spec_close(caller, attached, now) matches Err(e) && e == PoolError::NotActive
            &&& m1.spec_storage_deposit(target, attached, now) matches Err(e) && e
                == PoolError::NotActive
            &&& m1.spec_storage_unregister(caller, attached, now, force) matches Err(e) && e
                == PoolError::NotActive
        }),
{
}

} // verus!
