use std::str::FromStr;

use rust_decimal::Decimal;
use toyments::account::ClientAccount;
use toyments::account::ClientAccountError;
use toyments::account::ClientsAccounts;
use toyments::engine::disputable_transaction::DisputableTransaction;
use toyments::engine::disputable_transaction::DisputableTransactionKind;
use toyments::engine::payment_engine::PaymentEngineError;
use toyments::engine::PaymentEngine;
use toyments::money::Money;
use toyments::money::MAX_MANTISSA;
use toyments::transaction::Chargeback;
use toyments::transaction::ClientId;
use toyments::transaction::Deposit;
use toyments::transaction::Dispute;
use toyments::transaction::PositiveAmount;
use toyments::transaction::Resolve;
use toyments::transaction::Transaction;
use toyments::transaction::TransactionId;
use toyments::transaction::TransactionKind;
use toyments::transaction::TransactionRowError;
use toyments::transaction::Withdrawal;

fn money(value: &str) -> Money {
    let d = Decimal::from_str(value).unwrap();
    Money::from_parts(d.is_sign_negative(), d.mantissa().unsigned_abs(), d.scale()).unwrap()
}

fn parts(mantissa: u128, scale: u32) -> Money {
    Money::from_parts(false, mantissa, scale).unwrap()
}

fn amount(value: &str) -> PositiveAmount {
    PositiveAmount::new(money(value))
}

fn dep(client: u16, id: u32, value: &str) -> Transaction {
    Transaction::Deposit(Deposit { client_id: ClientId(client), id: TransactionId(id), amount: amount(value) })
}

fn wd(client: u16, id: u32, value: &str) -> Transaction {
    Transaction::Withdrawal(Withdrawal {
        client_id: ClientId(client),
        id: TransactionId(id),
        amount: amount(value),
    })
}

fn disp(client: u16, id: u32) -> Transaction {
    Transaction::Dispute(Dispute { client_id: ClientId(client), id: TransactionId(id) })
}

fn res(client: u16, id: u32) -> Transaction {
    Transaction::Resolve(Resolve { client_id: ClientId(client), id: TransactionId(id) })
}

fn cb(client: u16, id: u32) -> Transaction {
    Transaction::Chargeback(Chargeback { client_id: ClientId(client), id: TransactionId(id) })
}

fn same_account(a: &ClientAccount, b: &ClientAccount) -> bool {
    a.client_id() == b.client_id()
        && a.available() == b.available()
        && a.held() == b.held()
        && a.is_locked() == b.is_locked()
}

#[test]
fn money_sum_is_exact() {
    let sum = money("1.5").checked_add(&money("2.25")).unwrap();
    assert_eq!(sum, money("3.75"));
    assert_eq!(sum.mantissa(), 375);
    assert_eq!(sum.scale(), 2);
}

#[test]
fn money_difference_is_exact() {
    let difference = money("10.00").checked_sub(&money("3.25")).unwrap();
    assert_eq!(difference, money("6.75"));
    assert_ne!(difference, money("10.00"));
}

#[test]
fn money_sum_past_the_mantissa_range_overflows() {
    assert!(parts(MAX_MANTISSA, 0).checked_add(&parts(1, 0)).is_none());
    assert!(parts(MAX_MANTISSA - 1, 0).checked_add(&parts(1, 0)).is_some());
}

#[test]
fn money_sum_must_fit_at_the_larger_scale() {
    let large = parts(7_900_000_000_000_000_000_000_000_000, 0);
    let sum = large.checked_add(&money("0.1")).unwrap();
    assert_eq!(sum.mantissa(), 79_000_000_000_000_000_000_000_000_001);
    assert_eq!(sum.scale(), 1);
    assert!(large.checked_add(&money("0.01")).is_none());
}

#[test]
fn money_sum_held_exactly_at_a_smaller_scale() {
    let four = parts(40_000_000_000_000_000_000_000_000_000, 28);
    let eight = four.checked_add(&four).unwrap();
    assert_eq!(eight, money("8"));
    let eleven = money("10").checked_add(&parts(10_000_000_000_000_000_000_000_000_000, 28)).unwrap();
    assert_eq!(eleven, money("11"));
}

#[test]
fn money_difference_held_exactly_at_a_smaller_scale() {
    let one = parts(10_000_000_000_000_000_000_000_000_000, 28);
    assert_eq!(money("10").checked_sub(&one).unwrap(), money("9"));
}

#[test]
fn scale_mixed_moves_round_trip() {
    let one = PositiveAmount::new(parts(10_000_000_000_000_000_000_000_000_000, 28));
    let mut account = ClientAccount::new(ClientId(3));
    account.deposit(amount("8")).unwrap();
    account.withdraw_and_hold(one).unwrap();
    assert_eq!(account.available(), money("7"));
    assert_eq!(account.held(), money("1"));
    account.unhold_and_deposit(one).unwrap();
    assert_eq!(account.available(), money("8"));
    assert_eq!(account.held(), Money::zero());
    account.deposit(one).unwrap();
    account.hold(one).unwrap();
    account.hold(one).unwrap();
    account.deposit_and_unhold(one).unwrap();
    account.unhold(one).unwrap();
    assert_eq!(account.available(), money("10"));
    assert_eq!(account.held(), Money::zero());
    assert_eq!(account.total().unwrap(), money("10"));
}

#[test]
fn money_difference_that_cannot_be_held_overflows() {
    assert!(parts(MAX_MANTISSA, 0).checked_sub(&parts(1, 28)).is_none());
    assert_eq!(parts(MAX_MANTISSA, 0).checked_sub(&parts(MAX_MANTISSA, 0)).unwrap(), Money::zero());
}

#[test]
fn money_compares_by_value_across_scales() {
    assert!(money("0.05").less_than(&money("0.5")));
    assert!(!money("0.50").less_than(&money("0.5")));
    assert_eq!(money("5.5"), money("5.50"));
    assert_eq!(money("0.00"), Money::zero());
    assert_ne!(money("5.51"), money("5.5"));
}

#[test]
fn money_from_parts_rejects_what_is_out_of_range() {
    assert!(Money::from_parts(true, 5, 2).is_none());
    assert!(Money::from_parts(true, 0, 0).is_none());
    assert!(Money::from_parts(false, 5, 29).is_none());
    assert!(Money::from_parts(false, MAX_MANTISSA + 1, 0).is_none());
    let m = Money::from_parts(false, MAX_MANTISSA, 28).unwrap();
    assert_eq!(m.mantissa(), MAX_MANTISSA);
    assert_eq!(m.scale(), 28);
}

#[test]
fn account_starts_empty_and_unlocked() {
    let account = ClientAccount::new(ClientId(3));
    assert_eq!(account.client_id(), ClientId(3));
    assert_eq!(account.available(), Money::zero());
    assert_eq!(account.held(), Money::zero());
    assert!(!account.is_locked());
    assert!(!account.locked());
    assert_eq!(account.total().unwrap(), Money::zero());
}

#[test]
fn account_total_adds_both_buckets() {
    let mut account = ClientAccount::new(ClientId(3));
    account.deposit(amount("7.25")).unwrap();
    account.withdraw_and_hold(amount("2.5")).unwrap();
    assert_eq!(account.available(), money("4.75"));
    assert_eq!(account.held(), money("2.5"));
    assert_eq!(account.total().unwrap(), money("7.25"));
}

#[test]
fn account_total_overflow_is_reported() {
    let mut account = ClientAccount::new(ClientId(3));
    account.deposit(PositiveAmount::new(parts(MAX_MANTISSA, 0))).unwrap();
    account.hold(PositiveAmount::new(parts(1, 0))).unwrap();
    assert!(account.total().is_none());
}

#[test]
fn deposit_overflow_leaves_account_unchanged() {
    let mut account = ClientAccount::new(ClientId(3));
    toyments::account::deposit(&mut account, PositiveAmount::new(parts(MAX_MANTISSA, 0))).unwrap();
    let before = account;
    let result = toyments::account::deposit(&mut account, PositiveAmount::new(parts(1, 0)));
    let Err(ClientAccountError::OperationOverflow { client_account, amount }) = result else {
        panic!("expected an overflow");
    };
    assert!(same_account(&client_account, &before));
    assert_eq!(amount.as_inner(), parts(1, 0));
    assert!(same_account(&account, &before));
}

#[test]
fn unhold_more_than_held_is_insufficient_funds() {
    let mut account = ClientAccount::new(ClientId(3));
    toyments::account::hold(&mut account, amount("1.00")).unwrap();
    let result = toyments::account::unhold(&mut account, amount("1.01"));
    assert!(matches!(result, Err(ClientAccountError::InsufficientFunds { .. })));
    assert_eq!(account.held(), money("1"));
    toyments::account::unhold(&mut account, amount("0.40")).unwrap();
    assert_eq!(account.held(), money("0.6"));
}

#[test]
fn withdraw_and_hold_is_all_or_nothing() {
    let mut account = ClientAccount::new(ClientId(3));
    toyments::account::deposit(&mut account, amount("5")).unwrap();
    toyments::account::hold(&mut account, PositiveAmount::new(parts(MAX_MANTISSA, 0))).unwrap();
    let before = account;
    let result = toyments::account::withdraw_and_hold(&mut account, amount("1"));
    assert!(matches!(result, Err(ClientAccountError::OperationOverflow { .. })));
    assert!(same_account(&account, &before));
}

#[test]
fn unhold_and_deposit_is_all_or_nothing() {
    let mut account = ClientAccount::new(ClientId(3));
    toyments::account::deposit(&mut account, PositiveAmount::new(parts(MAX_MANTISSA, 0))).unwrap();
    toyments::account::hold(&mut account, amount("1")).unwrap();
    let before = account;
    let result = toyments::account::unhold_and_deposit(&mut account, amount("1"));
    assert!(matches!(result, Err(ClientAccountError::OperationOverflow { .. })));
    assert!(same_account(&account, &before));
    let result = toyments::account::unhold_and_deposit(&mut account, amount("2"));
    assert!(matches!(result, Err(ClientAccountError::InsufficientFunds { .. })));
    assert!(same_account(&account, &before));
}

#[test]
fn deposit_and_unhold_moves_amount_back() {
    let mut account = ClientAccount::new(ClientId(3));
    toyments::account::hold(&mut account, amount("4")).unwrap();
    toyments::account::deposit_and_unhold(&mut account, amount("1.5")).unwrap();
    assert_eq!(account.available(), money("1.5"));
    assert_eq!(account.held(), money("2.5"));
    let before = account;
    let result = toyments::account::deposit_and_unhold(&mut account, amount("3"));
    assert!(matches!(result, Err(ClientAccountError::InsufficientFunds { .. })));
    assert!(same_account(&account, &before));
}

#[test]
fn lock_is_idempotent() {
    let mut account = ClientAccount::new(ClientId(3));
    toyments::account::lock(&mut account);
    assert!(account.is_locked());
    account.lock();
    assert!(account.is_locked());
    assert_eq!(account.available(), Money::zero());
}

#[test]
fn registry_creates_each_account_once() {
    let mut accounts = ClientsAccounts::default();
    let account = accounts.get_or_create_new_account(ClientId(9));
    assert_eq!(account.client_id(), ClientId(9));
    account.deposit(amount("2.00")).unwrap();
    let again = accounts.get_or_create_new_account(ClientId(9));
    assert_eq!(again.available(), money("2"));
    accounts.get_or_create_new_account(ClientId(4));
    let inner = accounts.as_inner();
    assert_eq!(inner.len(), 2);
    assert_eq!(inner[&4].available(), Money::zero());
    assert_eq!(ClientsAccounts::new().as_inner().len(), 0);
}

#[test]
fn rows_make_transactions() {
    let some = Some(amount("1.2345"));
    let Ok(Transaction::Deposit(d)) = Transaction::from_row(TransactionKind::Deposit, ClientId(20), TransactionId(30), some) else {
        panic!("expected a deposit");
    };
    assert_eq!(d.client_id, ClientId(20));
    assert_eq!(d.id, TransactionId(30));
    assert_eq!(d.amount().as_inner(), money("1.2345"));
    let w = Transaction::from_row(TransactionKind::Withdrawal, ClientId(21), TransactionId(31), some).unwrap();
    assert!(matches!(w, Transaction::Withdrawal(_)));
    let t = Transaction::from_row(TransactionKind::Chargeback, ClientId(5), TransactionId(14), None).unwrap();
    assert!(matches!(t, Transaction::Chargeback(Chargeback { client_id: ClientId(5), id: TransactionId(14) })));
    let t = Transaction::from_row(TransactionKind::Dispute, ClientId(3), TransactionId(12), some).unwrap();
    assert!(matches!(t, Transaction::Dispute(Dispute { client_id: ClientId(3), id: TransactionId(12) })));
    let t = Transaction::from_row(TransactionKind::Resolve, ClientId(4), TransactionId(13), None).unwrap();
    assert_eq!(t.id(), TransactionId(13));
    assert_eq!(t.client_id(), ClientId(4));
}

#[test]
fn rows_without_amount_are_refused() {
    let r = Transaction::from_row(TransactionKind::Deposit, ClientId(6), TransactionId(15), None);
    assert!(matches!(r, Err(TransactionRowError::MissingAmount)));
    let r = Transaction::from_row(TransactionKind::Withdrawal, ClientId(9), TransactionId(18), None);
    assert!(matches!(r, Err(TransactionRowError::MissingAmount)));
}

#[test]
fn records_are_kept_for_deposits_and_withdrawals_only() {
    let record = DisputableTransaction::from_transaction(dep(1, 2, "3")).unwrap();
    assert!(record.is_deposit());
    assert!(!record.is_disputed);
    assert_eq!(record.id, TransactionId(2));
    let record = DisputableTransaction::from_transaction(wd(1, 2, "3")).unwrap();
    assert_eq!(record.kind, DisputableTransactionKind::Withdrawal);
    assert!(!record.kind.is_deposit());
    assert!(DisputableTransaction::from_transaction(disp(1, 2)).is_none());
    assert!(DisputableTransaction::from_transaction(res(1, 2)).is_none());
    assert!(DisputableTransaction::from_transaction(cb(1, 2)).is_none());
}

#[test]
fn balances_stay_non_negative_over_a_run() {
    let mut engine = PaymentEngine::new();
    let mut account = ClientAccount::new(ClientId(1));
    let txs = [dep(1, 1, "3"), wd(1, 2, "5"), wd(1, 3, "3"), disp(1, 1), dep(1, 4, "1"), disp(1, 1), cb(1, 1)];
    for tx in txs {
        let _ = engine.handle_transaction(&mut account, tx);
        assert!(!account.available().less_than(&Money::zero()));
        assert!(!account.held().less_than(&Money::zero()));
    }
    assert_eq!(account.available(), money("1"));
    assert_eq!(account.held(), Money::zero());
}

#[test]
fn deposit_then_dispute_keeps_total() {
    let mut engine = PaymentEngine::new();
    let mut account = ClientAccount::new(ClientId(1));
    engine.handle_transaction(&mut account, dep(1, 1, "2.50")).unwrap();
    engine.handle_transaction(&mut account, dep(1, 2, "4.25")).unwrap();
    engine.handle_transaction(&mut account, disp(1, 2)).unwrap();
    assert_eq!(account.available(), money("2.5"));
    assert_eq!(account.held(), money("4.25"));
    assert_eq!(account.total().unwrap(), money("6.75"));
}

#[test]
fn resolve_round_trips_a_deposit_dispute() {
    let mut engine = PaymentEngine::new();
    let mut account = ClientAccount::new(ClientId(1));
    engine.handle_transaction(&mut account, dep(1, 1, "2.50")).unwrap();
    engine.handle_transaction(&mut account, disp(1, 1)).unwrap();
    engine.handle_transaction(&mut account, res(1, 1)).unwrap();
    assert_eq!(account.available(), money("2.5"));
    assert_eq!(account.held(), Money::zero());
    engine.handle_transaction(&mut account, disp(1, 1)).unwrap();
    assert_eq!(account.held(), money("2.5"));
}

#[test]
fn chargeback_of_deposit_locks_and_refuses_everything_after() {
    let mut engine = PaymentEngine::new();
    let mut account = ClientAccount::new(ClientId(1));
    engine.handle_transaction(&mut account, dep(1, 1, "1.00")).unwrap();
    engine.handle_transaction(&mut account, dep(1, 2, "2.00")).unwrap();
    engine.handle_transaction(&mut account, disp(1, 2)).unwrap();
    engine.handle_transaction(&mut account, cb(1, 2)).unwrap();
    assert_eq!(account.available(), money("1"));
    assert_eq!(account.held(), Money::zero());
    assert!(account.is_locked());
    let before = account;
    for tx in [dep(1, 3, "1"), wd(1, 4, "1"), disp(1, 1), res(1, 2), cb(1, 2)] {
        let r = engine.handle_transaction(&mut account, tx);
        assert!(matches!(r, Err(PaymentEngineError::ClientAccountLocked { .. })));
        assert!(same_account(&account, &before));
    }
}

#[test]
fn refund_after_later_deposit_at_fine_scale() {
    let four = || PositiveAmount::new(parts(40_000_000_000_000_000_000_000_000_000, 28));
    let mut engine = PaymentEngine::new();
    let mut account = ClientAccount::new(ClientId(1));
    let tx = |id: u32, a: PositiveAmount| Transaction::Deposit(Deposit { client_id: ClientId(1), id: TransactionId(id), amount: a });
    engine.handle_transaction(&mut account, tx(1, four())).unwrap();
    engine.handle_transaction(&mut account, tx(2, four())).unwrap();
    engine.handle_transaction(&mut account, disp(1, 1)).unwrap();
    engine.handle_transaction(&mut account, disp(1, 2)).unwrap();
    assert_eq!(account.held(), money("8"));
    assert_eq!(account.available(), Money::zero());
    engine.handle_transaction(&mut account, dep(1, 3, "7")).unwrap();
    let w = Transaction::Withdrawal(Withdrawal { client_id: ClientId(1), id: TransactionId(4), amount: four() });
    engine.handle_transaction(&mut account, w).unwrap();
    engine.handle_transaction(&mut account, dep(1, 5, "3")).unwrap();
    engine.handle_transaction(&mut account, disp(1, 4)).unwrap();
    engine.handle_transaction(&mut account, cb(1, 4)).unwrap();
    assert_eq!(account.available(), money("10"));
    assert_eq!(account.held(), money("8"));
    assert!(account.is_locked());
}

#[test]
fn chargeback_of_withdrawal_refunds_it() {
    let mut engine = PaymentEngine::new();
    let mut account = ClientAccount::new(ClientId(1));
    engine.handle_transaction(&mut account, dep(1, 1, "8")).unwrap();
    engine.handle_transaction(&mut account, wd(1, 2, "3")).unwrap();
    assert_eq!(account.available(), money("5"));
    engine.handle_transaction(&mut account, disp(1, 2)).unwrap();
    assert_eq!(account.available(), money("5"));
    assert_eq!(account.held(), money("3"));
    engine.handle_transaction(&mut account, cb(1, 2)).unwrap();
    assert_eq!(account.available(), money("8"));
    assert_eq!(account.held(), Money::zero());
    assert!(account.is_locked());
}

#[test]
fn dispute_of_unknown_id_changes_nothing() {
    let mut engine = PaymentEngine::new();
    let mut account = ClientAccount::new(ClientId(1));
    engine.handle_transaction(&mut account, dep(1, 1, "4")).unwrap();
    let before = account;
    let r = engine.handle_transaction(&mut account, disp(1, 2));
    assert!(matches!(r, Err(PaymentEngineError::TransactionNotFound { id: TransactionId(2) })));
    assert!(same_account(&account, &before));
    let r = engine.handle_transaction(&mut account, cb(1, 7));
    assert!(matches!(r, Err(PaymentEngineError::TransactionNotFound { id: TransactionId(7) })));
    engine.handle_transaction(&mut account, disp(1, 1)).unwrap();
}

#[test]
fn second_dispute_is_refused_without_effect() {
    let mut engine = PaymentEngine::new();
    let mut account = ClientAccount::new(ClientId(1));
    engine.handle_transaction(&mut account, dep(1, 1, "4")).unwrap();
    engine.handle_transaction(&mut account, disp(1, 1)).unwrap();
    let before = account;
    let r = engine.handle_transaction(&mut account, disp(1, 1));
    assert!(matches!(r, Err(PaymentEngineError::TransactionAlreadyDisputed { .. })));
    assert!(same_account(&account, &before));
    assert_eq!(account.available(), Money::zero());
    assert_eq!(account.held(), money("4"));
}

#[test]
fn chargeback_without_dispute_is_refused() {
    let mut engine = PaymentEngine::new();
    let mut account = ClientAccount::new(ClientId(1));
    engine.handle_transaction(&mut account, dep(1, 1, "4")).unwrap();
    let before = account;
    let r = engine.handle_transaction(&mut account, cb(1, 1));
    assert!(matches!(r, Err(PaymentEngineError::TransactionNotDisputed { .. })));
    assert!(same_account(&account, &before));
    assert!(!account.is_locked());
}

#[test]
fn clients_with_the_same_id_stay_apart() {
    let mut engine = PaymentEngine::new();
    let mut first = ClientAccount::new(ClientId(1));
    let mut second = ClientAccount::new(ClientId(2));
    engine.handle_transaction(&mut first, dep(1, 5, "1")).unwrap();
    let r = engine.handle_transaction(&mut second, disp(2, 5));
    assert!(matches!(r, Err(PaymentEngineError::TransactionNotFound { .. })));
    engine.handle_transaction(&mut second, dep(2, 5, "2")).unwrap();
    engine.handle_transaction(&mut second, disp(2, 5)).unwrap();
    engine.handle_transaction(&mut second, cb(2, 5)).unwrap();
    assert!(second.is_locked());
    assert_eq!(second.available(), Money::zero());
    engine.handle_transaction(&mut first, disp(1, 5)).unwrap();
    assert_eq!(first.available(), Money::zero());
    assert_eq!(first.held(), money("1"));
    assert!(!first.is_locked());
}

#[test]
fn withdrawal_dispute_then_resolve_releases_hold() {
    let mut engine = PaymentEngine::new();
    let mut account = ClientAccount::new(ClientId(1));
    engine.handle_transaction(&mut account, dep(1, 10, "5.50")).unwrap();
    assert_eq!(account.available(), money("5.50"));
    assert_eq!(account.held(), Money::zero());
    let mut account = ClientAccount::new(ClientId(1));
    engine.handle_transaction(&mut account, dep(1, 1, "10.00")).unwrap();
    engine.handle_transaction(&mut account, wd(1, 2, "3.25")).unwrap();
    assert_eq!(account.available(), money("6.75"));
    engine.handle_transaction(&mut account, disp(1, 2)).unwrap();
    assert_eq!(account.available(), money("6.75"));
    assert_eq!(account.held(), money("3.25"));
    engine.handle_transaction(&mut account, res(1, 2)).unwrap();
    assert_eq!(account.held(), Money::zero());
    assert_eq!(account.available(), money("10.00"));
    assert!(!account.is_locked());
}

#[test]
fn overdraft_changes_nothing() {
    let mut engine = PaymentEngine::new();
    let mut account = ClientAccount::new(ClientId(1));
    engine.handle_transaction(&mut account, dep(1, 1, "2.00")).unwrap();
    let before = account;
    let r = engine.handle_transaction(&mut account, wd(1, 2, "2.01"));
    let Err(PaymentEngineError::ClientAccount(ClientAccountError::InsufficientFunds { client_account, amount })) = r else {
        panic!("expected insufficient funds");
    };
    assert!(same_account(&client_account, &before));
    assert_eq!(amount.as_inner(), money("2.01"));
    assert!(same_account(&account, &before));
    let r = engine.handle_transaction(&mut account, disp(1, 2));
    assert!(matches!(r, Err(PaymentEngineError::TransactionNotFound { .. })));
}

#[test]
fn engine_reports_account_overflow() {
    let mut engine = PaymentEngine::default();
    let mut account = ClientAccount::new(ClientId(1));
    let huge = Transaction::Deposit(Deposit {
        client_id: ClientId(1),
        id: TransactionId(1),
        amount: PositiveAmount::new(parts(MAX_MANTISSA, 0)),
    });
    engine.handle_transaction(&mut account, huge).unwrap();
    let before = account;
    let r = engine.handle_transaction(&mut account, dep(1, 2, "1"));
    assert!(matches!(r, Err(PaymentEngineError::ClientAccount(ClientAccountError::OperationOverflow { .. }))));
    assert!(same_account(&account, &before));
    let r = engine.handle_transaction(&mut account, disp(1, 2));
    assert!(matches!(r, Err(PaymentEngineError::TransactionNotFound { .. })));
}

#[test]
fn unrelated_transaction_is_refused() {
    let mut engine = PaymentEngine::new();
    let mut account = ClientAccount::new(ClientId(1));
    let r = engine.handle_transaction(&mut account, dep(2, 1, "1"));
    let Err(PaymentEngineError::UnrelatedTransaction { client_account, tx }) = r else {
        panic!("expected an unrelated transaction");
    };
    assert_eq!(client_account.client_id(), ClientId(1));
    assert_eq!(tx.client_id(), ClientId(2));
    assert_eq!(account.available(), Money::zero());
}
