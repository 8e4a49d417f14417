//! The ledger protocol end to end: round trips, optimistic debits with
//! compensation on failure, vault resurrection, idempotent registration,
//! and the read-only reporting surface.

use st_pool::constants::{E24, NEAR_BALANCE};
use st_pool::errors::PoolError;
use st_pool::interfaces::{CloseEffect, TransferKind, TransferOutcome};
use st_pool::pool::Contract;

const NOW: u64 = 100_000_000_000;
const NEXT_YEAR: u64 = NOW + 31_556_952_000;

fn pool(returnable: bool) -> Contract {
    Contract::new(
        "owner".to_string(),
        "test-token".to_string(),
        "treasury".to_string(),
        returnable,
        NEXT_YEAR,
    )
}

fn register(ctr: &mut Contract, a: &String) {
    ctr.storage_deposit(a, NEAR_BALANCE, NOW, None).unwrap();
}

fn stake(ctr: &mut Contract, a: &String, amount: u128) {
    ctr.ft_on_transfer(&"test-token".to_string(), a, amount, NOW)
        .unwrap();
}

#[test]
fn round_trip_nets_to_zero() {
    let a = "alice".to_string();
    let mut ctr = pool(false);
    let total_before = ctr.get_contract_params().total_staked;
    let count_before = ctr.get_contract_params().accounts_registered;

    register(&mut ctr, &a);
    stake(&mut ctr, &a, 1_000);
    let (reported, effect) = ctr.unstake(&a, 1, NOW, 1_000).unwrap();

    // the full unstake degenerated into a close: nothing remains staked
    assert_eq!(reported, 0);
    match effect {
        CloseEffect::TokenReturn(req) => {
            assert_eq!(req.receiver_id, a);
            assert_eq!(req.amount, 1_000);
            assert_eq!(req.kind, TransferKind::UserReturn);
        }
        CloseEffect::DepositRefund => panic!("a staked close must dispatch a transfer"),
    }
    assert!(ctr.storage_balance_of(&a).is_none());
    assert_eq!(ctr.get_contract_params().total_staked, total_before);
    assert_eq!(ctr.get_contract_params().accounts_registered, count_before);
}

#[test]
fn partial_then_full_unstake() {
    let a = "alice".to_string();
    let mut ctr = pool(false);
    register(&mut ctr, &a);
    stake(&mut ctr, &a, 2_000);

    let (left, _) = ctr.unstake(&a, 1, NOW, 1_000).unwrap();
    assert_eq!(left, 1_000);
    assert_eq!(ctr.status(&a), 1_000);

    // the second unstake of everything left closes and removes the vault
    ctr.unstake(&a, 1, NOW, 1_000).unwrap();
    assert!(ctr.storage_balance_of(&a).is_none());
    assert_eq!(ctr.status(&a), 0);
}

#[test]
fn failed_transfer_recovers_stake_and_total() {
    let a = "alice".to_string();
    let mut ctr = pool(false);
    register(&mut ctr, &a);
    stake(&mut ctr, &a, 1_000);
    let total_before = ctr.get_contract_params().total_staked;

    ctr.unstake(&a, 1, NOW, 400).unwrap();
    assert_eq!(ctr.status(&a), 600);
    assert_eq!(ctr.get_contract_params().total_staked, total_before - 400);

    // the environment reports the outbound transfer failed: compensate
    ctr.return_tokens_callback(&a, 400, TransferOutcome::Failed);
    assert_eq!(ctr.status(&a), 1_000);
    assert_eq!(ctr.get_contract_params().total_staked, total_before);
}

#[test]
fn successful_transfer_leaves_debit_standing() {
    let a = "alice".to_string();
    let mut ctr = pool(false);
    register(&mut ctr, &a);
    stake(&mut ctr, &a, 1_000);

    ctr.unstake(&a, 1, NOW, 400).unwrap();
    ctr.return_tokens_callback(&a, 400, TransferOutcome::Succeeded);
    assert_eq!(ctr.status(&a), 600);
    assert_eq!(ctr.get_contract_params().total_staked, 600);
}

#[test]
fn failed_transfer_after_close_resurrects_vault() {
    let a = "alice".to_string();
    let mut ctr = pool(false);
    register(&mut ctr, &a);
    stake(&mut ctr, &a, 1_000);
    let count_before = ctr.get_contract_params().accounts_registered;
    let total_before = ctr.get_contract_params().total_staked;

    ctr.close(&a, 1, NOW).unwrap();
    assert!(ctr.storage_balance_of(&a).is_none());
    assert_eq!(
        ctr.get_contract_params().accounts_registered,
        count_before - 1
    );

    // the transfer of the closed-out stake failed: the vault comes back
    ctr.return_tokens_callback(&a, 1_000, TransferOutcome::Failed);
    assert!(ctr.storage_balance_of(&a).is_some());
    assert_eq!(ctr.status(&a), 1_000);
    assert_eq!(ctr.get_contract_params().accounts_registered, count_before);
    assert_eq!(ctr.get_contract_params().total_staked, total_before);
}

#[test]
fn re_registration_refunds_and_counts_once() {
    let a = "alice".to_string();
    let mut ctr = pool(false);
    register(&mut ctr, &a);
    assert_eq!(ctr.get_contract_params().accounts_registered, 1);

    // second registration: full refund, no second vault
    let (_, refund) = ctr.storage_deposit(&a, 7 * NEAR_BALANCE, NOW, None).unwrap();
    assert_eq!(refund, 7 * NEAR_BALANCE);
    assert_eq!(ctr.get_contract_params().accounts_registered, 1);
    assert_eq!(ctr.status(&a), 0);
}

#[test]
fn registration_refunds_excess_over_fee() {
    let a = "alice".to_string();
    let mut ctr = pool(false);
    let (balance, refund) = ctr
        .storage_deposit(&a, NEAR_BALANCE + 123, NOW, None)
        .unwrap();
    assert_eq!(refund, 123);
    assert_eq!(balance.total, NEAR_BALANCE);
    assert_eq!(balance.available, 0);
}

#[test]
fn registration_on_behalf_of_other_account() {
    let a = "alice".to_string();
    let b = "bob".to_string();
    let mut ctr = pool(false);
    ctr.storage_deposit(&a, NEAR_BALANCE, NOW, Some(b.clone()))
        .unwrap();
    assert!(ctr.storage_balance_of(&b).is_some());
    assert!(ctr.storage_balance_of(&a).is_none());
}

#[test]
fn deactivation_gates_every_mutating_call() {
    let a = "alice".to_string();
    let mut ctr = pool(false);
    register(&mut ctr, &a);
    stake(&mut ctr, &a, 1_000);

    ctr.set_active(&"owner".to_string(), false).unwrap();

    let token = "test-token".to_string();
    assert_eq!(
        ctr.ft_on_transfer(&token, &a, 10, NOW).unwrap_err(),
        PoolError::NotActive
    );
    assert_eq!(
        ctr.unstake(&a, 1, NOW, 10).unwrap_err(),
        PoolError::NotActive
    );
    assert_eq!(ctr.close(&a, 1, NOW).unwrap_err(), PoolError::NotActive);
    assert_eq!(
        ctr.storage_deposit(&a, NEAR_BALANCE, NOW, None).unwrap_err(),
        PoolError::NotActive
    );
    assert_eq!(
        ctr.storage_unregister(&a, 1, NOW, Some(true)).unwrap_err(),
        PoolError::NotActive
    );
    // the prior balance is untouched by the refused calls
    assert_eq!(ctr.status(&a), 1_000);
}

#[test]
fn close_of_empty_vault_refunds_deposit_only() {
    let a = "alice".to_string();
    let mut ctr = pool(false);
    register(&mut ctr, &a);
    assert_eq!(ctr.get_contract_params().accounts_registered, 1);

    let effect = ctr.close(&a, 1, NOW).unwrap();
    assert!(matches!(effect, CloseEffect::DepositRefund));
    assert!(ctr.storage_balance_of(&a).is_none());
    // the fast path removes the vault without touching the registered
    // count: observed behaviour, preserved
    assert_eq!(ctr.get_contract_params().accounts_registered, 1);
}

#[test]
fn unregister_without_force_is_a_no_op() {
    let a = "alice".to_string();
    let mut ctr = pool(false);
    register(&mut ctr, &a);
    stake(&mut ctr, &a, 1_000);

    let (unregistered, effect) = ctr.storage_unregister(&a, 1, NOW, None).unwrap();
    assert!(!unregistered);
    assert!(effect.is_none());
    assert_eq!(ctr.status(&a), 1_000);

    let (unregistered, effect) = ctr.storage_unregister(&a, 1, NOW, Some(false)).unwrap();
    assert!(!unregistered);
    assert!(effect.is_none());
    assert_eq!(ctr.status(&a), 1_000);
}

#[test]
fn treasury_sweep_leaves_ledger_untouched() {
    let a = "alice".to_string();
    let owner = "owner".to_string();
    let mut ctr = pool(false);
    register(&mut ctr, &a);
    stake(&mut ctr, &a, 1_000);
    ctr.set_closing_date(&owner, NOW - 10_000).unwrap();

    let req = ctr.withdraw_tokens(&owner, NOW).unwrap();
    assert_eq!(req.receiver_id, "treasury".to_string());
    assert_eq!(req.amount, 1_000);
    assert_eq!(req.kind, TransferKind::TreasurySweep);
    assert_eq!(ctr.get_contract_params().total_staked, 1_000);

    // neither outcome of the sweep changes the ledger
    ctr.return_tokens_treasury_callback(1_000, TransferOutcome::Failed);
    assert_eq!(ctr.get_contract_params().total_staked, 1_000);
    ctr.return_tokens_treasury_callback(1_000, TransferOutcome::Succeeded);
    assert_eq!(ctr.get_contract_params().total_staked, 1_000);
    assert_eq!(ctr.status(&a), 1_000);
}

#[test]
fn total_matches_sum_of_stakes() {
    let a = "alice".to_string();
    let b = "bob".to_string();
    let mut ctr = pool(false);
    register(&mut ctr, &a);
    register(&mut ctr, &b);
    stake(&mut ctr, &a, 700);
    stake(&mut ctr, &b, 300);
    ctr.unstake(&a, 1, NOW, 200).unwrap();
    assert_eq!(
        ctr.get_contract_params().total_staked,
        ctr.status(&a) + ctr.status(&b)
    );
    assert_eq!(ctr.get_contract_params().accounts_registered, 2);
}

#[test]
fn registered_accounts_are_listed_in_order() {
    let a = "alice".to_string();
    let b = "bob".to_string();
    let c = "charlie".to_string();
    let mut ctr = pool(false);
    register(&mut ctr, &a);
    register(&mut ctr, &b);
    register(&mut ctr, &c);

    assert_eq!(ctr.get_registered_accounts(0, 10), vec![a.clone(), b.clone(), c.clone()]);
    assert_eq!(ctr.get_registered_accounts(1, 1), vec![b.clone()]);
    assert_eq!(ctr.get_registered_accounts(3, 5), Vec::<String>::new());
    assert_eq!(ctr.get_registered_accounts(0, 2), vec![a.clone(), b.clone()]);
}

#[test]
fn epoch_millis_from_nanos() {
    assert_eq!(Contract::get_epoch_millis(100_000_000_000_000_000), NOW);
    assert_eq!(Contract::get_epoch_millis(999_999), 0);
    assert_eq!(Contract::get_epoch_millis(1_000_000), 1);
}

#[test]
fn storage_balance_bounds_are_the_fixed_fee() {
    let ctr = pool(false);
    let bounds = ctr.storage_balance_bounds();
    assert_eq!(bounds.min, NEAR_BALANCE);
    assert_eq!(bounds.max, Some(NEAR_BALANCE));
}

#[test]
fn contract_params_report_the_configuration() {
    let ctr = pool(true);
    let p = ctr.get_contract_params();
    assert_eq!(p.owner_id, "owner".to_string());
    assert_eq!(p.staked_token, "test-token".to_string());
    assert_eq!(p.is_active, true);
    assert_eq!(p.closing_date, NEXT_YEAR);
    assert_eq!(p.total_staked, 0);
    assert_eq!(p.accounts_registered, 0);
}

#[test]
fn deposits_refused_after_closing_even_when_returnable() {
    let a = "alice".to_string();
    let mut ctr = pool(true);
    register(&mut ctr, &a);
    ctr.set_closing_date(&"owner".to_string(), NOW - 1).unwrap();
    // deposits are never allowed after closing, returnable or not
    assert_eq!(
        ctr.ft_on_transfer(&"test-token".to_string(), &a, 10, NOW)
            .unwrap_err(),
        PoolError::PoolClosed
    );
}
