use rust_decimal::Decimal;
use std::collections::HashMap;
use tx_engine::amount::{Amount, MAX_MANTISSA};
use tx_engine::process_tx;
use tx_engine::types::{
    Accounts, BalanceChange, ClientAccount, Deposit, Dispute, DisputeState, TxType,
};

fn number(amount: Amount) -> Decimal {
    Decimal::from_i128_with_scale(amount.mantissa(), amount.scale())
}

fn put(client: u16, tx: u32, mantissa: i64, scale: u32) -> TxType {
    TxType::Deposit(BalanceChange {
        client,
        tx,
        amount: Amount::new(mantissa, scale),
    })
}

fn take(client: u16, tx: u32, mantissa: i64, scale: u32) -> TxType {
    TxType::Withdrawal(BalanceChange {
        client,
        tx,
        amount: Amount::new(mantissa, scale),
    })
}

fn contest(client: u16, tx: u32) -> TxType {
    TxType::Dispute(Dispute { client, tx })
}

fn settle(client: u16, tx: u32) -> TxType {
    TxType::Resolve(Dispute { client, tx })
}

fn reverse(client: u16, tx: u32) -> TxType {
    TxType::Chargeback(Dispute { client, tx })
}

fn stream() -> Vec<TxType> {
    vec![
        put(1, 1, 1000, 1),
        put(2, 2, 25, 2),
        take(1, 3, 333, 3),
        contest(1, 1),
        put(1, 4, 7, 0),
        take(2, 5, 1, 0),
        contest(2, 2),
        settle(1, 1),
        contest(1, 4),
        put(1, 4, 12345, 4),
        contest(1, 4),
        reverse(2, 2),
        put(2, 6, 5, 0),
        take(2, 7, 1, 2),
        contest(1, 1),
        reverse(1, 1),
        settle(1, 4),
        reverse(1, 4),
        contest(3, 1),
        take(3, 8, 0, 0),
    ]
}

#[test]
fn total_is_available_plus_held_after_every_prefix() {
    let mut accounts = Accounts::default();
    for tx in stream() {
        process_tx(tx, &mut accounts);
        for account in accounts.values() {
            assert_eq!(
                number(account.total),
                number(account.available) + number(account.held)
            );
        }
    }
    assert_eq!(accounts.len(), 3);
}

#[test]
fn held_is_not_negative_after_any_prefix() {
    let mut accounts = Accounts::default();
    for tx in stream() {
        process_tx(tx, &mut accounts);
        for account in accounts.values() {
            assert!(!account.held.less_than(&Amount::zero()));
        }
    }
    // the deposit that was overwritten while disputed stays held
    assert_eq!(accounts.get(&1).unwrap().held, Amount::new(7, 0));
}

#[test]
fn locked_account_has_a_charged_back_deposit_after_every_prefix() {
    let mut accounts = Accounts::default();
    let mut locked_at_some_point = false;
    for tx in stream() {
        process_tx(tx, &mut accounts);
        for account in accounts.values() {
            if account.locked {
                locked_at_some_point = true;
                assert!(account
                    .deposit_txs
                    .values()
                    .any(|deposit| deposit.dispute == DisputeState::Chargeback));
            }
        }
    }
    assert!(locked_at_some_point);
    assert!(accounts.get(&1).unwrap().locked);
    assert!(accounts.get(&2).unwrap().locked);
    assert!(!accounts.get(&3).unwrap().locked);
}

fn lifecycle_step(before: DisputeState, after: DisputeState) -> bool {
    before == after
        || matches!(
            (before, after),
            (DisputeState::Undisputed, DisputeState::Disputed)
                | (DisputeState::Disputed, DisputeState::Undisputed)
                | (DisputeState::Disputed, DisputeState::Chargeback)
        )
}

#[test]
fn deposits_move_along_their_lifecycle() {
    let mut accounts = Accounts::default();
    let mut charged_back = 0;
    for tx in stream() {
        let before = accounts.clone();
        process_tx(tx, &mut accounts);
        for (client, account) in &before {
            let after = accounts.get(client).unwrap();
            for (id, deposit) in &account.deposit_txs {
                let now = after.deposit_txs.get(id).unwrap();
                assert!(lifecycle_step(deposit.dispute, now.dispute));
                if deposit.dispute == DisputeState::Chargeback {
                    charged_back += 1;
                    assert_eq!(now, deposit);
                }
            }
        }
        for account in accounts.values() {
            let reversed = account
                .deposit_txs
                .values()
                .any(|deposit| deposit.dispute == DisputeState::Chargeback);
            assert_eq!(reversed, account.locked);
        }
    }
    assert!(charged_back > 0);
}

#[test]
fn chargeback_applied_again_changes_nothing() {
    let mut accounts = Accounts::default();
    process_tx(put(1, 1, 100, 0), &mut accounts);
    process_tx(put(1, 2, 50, 0), &mut accounts);
    process_tx(contest(1, 1), &mut accounts);
    process_tx(reverse(1, 1), &mut accounts);
    let once = accounts.clone();
    assert_eq!(once.get(&1).unwrap().total, Amount::new(50, 0));
    for _ in 0..5 {
        process_tx(reverse(1, 1), &mut accounts);
        assert_eq!(accounts, once);
    }
    // a chargeback that never applied changes nothing either, however often it comes
    for _ in 0..3 {
        process_tx(reverse(1, 2), &mut accounts);
        process_tx(reverse(1, 9), &mut accounts);
        process_tx(reverse(7, 1), &mut accounts);
        assert_eq!(accounts, once);
    }
}

#[test]
fn locked_account_ignores_deposits_and_withdrawals() {
    let mut accounts = Accounts::default();
    process_tx(put(1, 1, 100, 0), &mut accounts);
    process_tx(put(1, 2, 50, 0), &mut accounts);
    process_tx(contest(1, 1), &mut accounts);
    process_tx(reverse(1, 1), &mut accounts);
    let locked = accounts.clone();
    for round in 0..4 {
        process_tx(put(1, 10 + round, 5, 0), &mut accounts);
        assert_eq!(accounts, locked);
        process_tx(take(1, 20 + round, 5, 0), &mut accounts);
        assert_eq!(accounts, locked);
        // not even a deposit under a registered id is written
        process_tx(put(1, 2, 1, 0), &mut accounts);
        assert_eq!(accounts, locked);
    }
    assert_eq!(accounts.get(&1).unwrap().available, Amount::new(50, 0));
}

#[test]
fn resolve_after_dispute_restores_the_balances() {
    let mut accounts = Accounts::default();
    process_tx(put(1, 1, 10012345, 5), &mut accounts);
    process_tx(put(1, 2, 25, 1), &mut accounts);
    process_tx(take(1, 3, 999, 2), &mut accounts);
    let before = accounts.clone();
    process_tx(contest(1, 2), &mut accounts);
    assert_ne!(accounts, before);
    process_tx(settle(1, 2), &mut accounts);
    assert_eq!(accounts, before);
    process_tx(contest(1, 2), &mut accounts);
    process_tx(settle(1, 2), &mut accounts);
    assert_eq!(accounts, before);
    let account = accounts.get(&1).unwrap();
    assert_eq!(account.available, Amount::new(9263345, 5));
    assert_eq!(account.held, Amount::zero());
}

#[test]
fn resolve_after_an_ignored_dispute_changes_nothing() {
    let mut accounts = Accounts::default();
    process_tx(put(1, 1, 100, 0), &mut accounts);
    process_tx(contest(1, 1), &mut accounts);
    process_tx(reverse(1, 1), &mut accounts);
    let before = accounts.clone();
    for (client, tx) in [(1, 1), (1, 5), (2, 1)] {
        process_tx(contest(client, tx), &mut accounts);
        process_tx(settle(client, tx), &mut accounts);
        assert_eq!(accounts, before);
    }
}

#[test]
fn resolve_after_dispute_of_a_disputed_deposit_does_not_restore() {
    let mut accounts = Accounts::default();
    process_tx(put(1, 1, 100, 0), &mut accounts);
    process_tx(contest(1, 1), &mut accounts);
    let before = accounts.clone();
    process_tx(contest(1, 1), &mut accounts);
    process_tx(settle(1, 1), &mut accounts);
    assert_ne!(accounts, before);
    assert_eq!(accounts.get(&1).unwrap().held, Amount::zero());
}

fn deposit_of(client: u16, tx: u32, amount: Amount) -> TxType {
    TxType::Deposit(BalanceChange { client, tx, amount })
}

#[test]
fn saturated_balance_does_not_stop_the_held_funds() {
    let largest = Amount::from_parts(MAX_MANTISSA, 0).unwrap();
    let mut accounts = Accounts::default();
    process_tx(deposit_of(1, 1, largest), &mut accounts);
    process_tx(put(1, 2, 7, 0), &mut accounts);
    assert_eq!(accounts.get(&1).unwrap().available, largest);
    process_tx(contest(1, 2), &mut accounts);
    let account = accounts.get(&1).unwrap();
    assert_eq!(account.held, Amount::new(7, 0));
    assert_eq!(
        account.available,
        Amount::from_parts(MAX_MANTISSA - 7, 0).unwrap()
    );
    assert_eq!(account.total, largest);
    process_tx(reverse(1, 2), &mut accounts);
    let account = accounts.get(&1).unwrap();
    assert_eq!(account.held, Amount::zero());
    assert_eq!(
        account.total,
        Amount::from_parts(MAX_MANTISSA - 7, 0).unwrap()
    );
}

#[test]
fn saturated_sums_break_the_balance() {
    let largest = Amount::from_parts(MAX_MANTISSA, 0).unwrap();
    let mut accounts = Accounts::default();
    process_tx(deposit_of(1, 1, largest), &mut accounts);
    process_tx(deposit_of(1, 2, largest), &mut accounts);
    process_tx(contest(1, 1), &mut accounts);
    process_tx(contest(1, 2), &mut accounts);
    let account = accounts.get(&1).unwrap();
    assert_eq!(account.total, largest);
    assert_eq!(account.held, largest);
    assert_eq!(account.available, Amount::from_parts(-MAX_MANTISSA, 0).unwrap());
    assert_ne!(
        number(account.total),
        number(account.available) + number(account.held)
    );
    process_tx(settle(1, 1), &mut accounts);
    process_tx(settle(1, 2), &mut accounts);
    let account = accounts.get(&1).unwrap();
    assert!(account.held.less_than(&Amount::zero()));
}

#[test]
fn negative_deposit_is_held_as_negative() {
    let mut accounts = Accounts::default();
    process_tx(put(1, 1, -5, 0), &mut accounts);
    process_tx(contest(1, 1), &mut accounts);
    let account = accounts.get(&1).unwrap();
    assert_eq!(account.held, Amount::new(-5, 0));
    assert_eq!(account.available, Amount::zero());
    assert_eq!(account.total, Amount::new(-5, 0));
}

#[test]
fn rounded_differences_break_the_round_trip() {
    let largest = Amount::from_parts(MAX_MANTISSA, 0).unwrap();
    let mut account = ClientAccount {
        available: largest,
        held: Amount::zero(),
        total: largest,
        locked: false,
        deposit_txs: HashMap::from([(
            2,
            Deposit {
                amount: Amount::new(5, 1),
                dispute: DisputeState::Undisputed,
            },
        )]),
    };
    let before = account.clone();
    account.dispute(2);
    account.resolve(2);
    assert_eq!(account.held, before.held);
    assert_ne!(account.available, before.available);
    assert_eq!(
        account.available,
        Amount::from_parts(MAX_MANTISSA - 1, 0).unwrap()
    );
}
