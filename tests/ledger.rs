use ledger::amount::{amount_from_decimal, decimal_from_units, units_from_parts};
use ledger::model::{Account, Transaction, TransactionKind};
use ledger::processor::{key, TransactionProcessor};
use rust_decimal::Decimal;

const UNIT: i64 = 10_000;

fn tx(kind: TransactionKind, client: u16, id: u32, amount: Option<i64>) -> Transaction {
    Transaction { kind, client, tx: id, amount, disputed: false }
}

fn deposit(client: u16, id: u32, amount: i64) -> Transaction {
    tx(TransactionKind::Deposit, client, id, Some(amount))
}

fn withdrawal(client: u16, id: u32, amount: i64) -> Transaction {
    tx(TransactionKind::Withdrawal, client, id, Some(amount))
}

fn dispute(client: u16, id: u32) -> Transaction {
    tx(TransactionKind::Dispute, client, id, None)
}

fn resolve(client: u16, id: u32) -> Transaction {
    tx(TransactionKind::Resolve, client, id, None)
}

fn chargeback(client: u16, id: u32) -> Transaction {
    tx(TransactionKind::Chargeback, client, id, None)
}

fn account(client: u16, available: i64, held: i64, total: i64, locked: bool) -> Account {
    Account { client, available, held, total, locked }
}

fn run(txs: &[Transaction]) -> TransactionProcessor {
    let mut p = TransactionProcessor::new();
    for t in txs {
        p.handle(*t);
    }
    p
}

#[test]
fn deposits_and_withdrawal() {
    let p = run(&[deposit(1, 1, 10 * UNIT), deposit(1, 2, 5 * UNIT), withdrawal(1, 3, 3 * UNIT)]);
    assert_eq!(p.account(1), Some(account(1, 12 * UNIT, 0, 12 * UNIT, false)));
}

#[test]
fn dispute_holds_funds() {
    let p = run(&[deposit(2, 4, 20 * UNIT), dispute(2, 4)]);
    assert_eq!(p.account(2), Some(account(2, 0, 20 * UNIT, 20 * UNIT, false)));
}

#[test]
fn resolve_releases_funds() {
    let p = run(&[deposit(2, 4, 20 * UNIT), dispute(2, 4), resolve(2, 4)]);
    assert_eq!(p.account(2), Some(account(2, 20 * UNIT, 0, 20 * UNIT, false)));
}

#[test]
fn chargeback_locks_and_later_deposit_is_ignored() {
    let mut p = run(&[deposit(2, 4, 20 * UNIT), dispute(2, 4), chargeback(2, 4)]);
    let locked = account(2, 0, 0, 0, true);
    assert_eq!(p.account(2), Some(locked));
    p.handle(deposit(2, 5, 100 * UNIT));
    assert_eq!(p.account(2), Some(locked));
}

#[test]
fn withdrawal_without_funds_is_ignored() {
    let p = run(&[withdrawal(3, 6, 50 * UNIT)]);
    match p.account(3) {
        None => {}
        Some(a) => assert_eq!(a, account(3, 0, 0, 0, false)),
    }
}

#[test]
fn dispute_of_unknown_id_is_ignored() {
    let p = run(&[deposit(4, 1, 7 * UNIT), dispute(4, 99)]);
    assert_eq!(p.account(4), Some(account(4, 7 * UNIT, 0, 7 * UNIT, false)));
}

#[test]
fn dispute_of_other_clients_transaction_is_ignored() {
    let p = run(&[deposit(1, 7, 5 * UNIT), deposit(2, 8, 3 * UNIT), dispute(2, 7)]);
    assert_eq!(p.account(1), Some(account(1, 5 * UNIT, 0, 5 * UNIT, false)));
    assert_eq!(p.account(2), Some(account(2, 3 * UNIT, 0, 3 * UNIT, false)));
}

#[test]
fn dispute_of_unknown_client_creates_nothing() {
    let p = run(&[dispute(9, 1), resolve(9, 1), chargeback(9, 1)]);
    assert_eq!(p.account(9), None);
    assert!(p.snapshot().is_empty());
}

#[test]
fn balance_identity_holds_along_a_stream() {
    let stream = [
        deposit(1, 1, 12_345),
        deposit(1, 2, 7),
        dispute(1, 1),
        withdrawal(1, 3, 5),
        withdrawal(1, 4, 1_000_000),
        resolve(1, 1),
        dispute(1, 2),
        chargeback(1, 2),
    ];
    let mut p = TransactionProcessor::new();
    for t in stream {
        p.handle(t);
        let a = p.account(1).unwrap();
        assert_eq!(a.total, a.available + a.held);
    }
    assert_eq!(p.account(1), Some(account(1, 12_340, 0, 12_340, true)));
}

#[test]
fn withdrawals_never_overdraw() {
    let p = run(&[
        deposit(5, 1, 3 * UNIT),
        withdrawal(5, 2, 2 * UNIT),
        withdrawal(5, 3, 2 * UNIT),
        withdrawal(5, 4, UNIT),
    ]);
    assert_eq!(p.account(5), Some(account(5, 0, 0, 0, false)));
}

#[test]
fn withdrawal_of_exact_balance_is_accepted() {
    let p = run(&[deposit(5, 1, UNIT), withdrawal(5, 2, UNIT)]);
    assert_eq!(p.account(5), Some(account(5, 0, 0, 0, false)));
}

#[test]
fn dispute_then_resolve_restores_balances() {
    let before = run(&[deposit(6, 1, 9 * UNIT), withdrawal(6, 2, UNIT)]);
    let after = run(&[deposit(6, 1, 9 * UNIT), withdrawal(6, 2, UNIT), dispute(6, 1), resolve(6, 1)]);
    assert_eq!(before.account(6), after.account(6));
}

#[test]
fn dispute_of_withdrawal_then_chargeback() {
    let p = run(&[deposit(7, 1, 9 * UNIT), withdrawal(7, 2, 4 * UNIT), dispute(7, 2), chargeback(7, 2)]);
    assert_eq!(p.account(7), Some(account(7, UNIT, 0, UNIT, true)));
}

#[test]
fn locked_account_ignores_everything() {
    let mut p = run(&[deposit(8, 1, 9 * UNIT), deposit(8, 2, UNIT), dispute(8, 1), chargeback(8, 1)]);
    let locked = account(8, UNIT, 0, UNIT, true);
    assert_eq!(p.account(8), Some(locked));
    for t in [withdrawal(8, 3, UNIT), dispute(8, 2), resolve(8, 2), chargeback(8, 2), deposit(8, 4, UNIT)] {
        p.handle(t);
        assert_eq!(p.account(8), Some(locked));
    }
}

#[test]
fn resolve_and_chargeback_without_dispute_are_ignored() {
    let p = run(&[deposit(10, 1, 2 * UNIT), resolve(10, 1), chargeback(10, 1)]);
    assert_eq!(p.account(10), Some(account(10, 2 * UNIT, 0, 2 * UNIT, false)));
}

#[test]
fn double_dispute_is_ignored() {
    let p = run(&[deposit(11, 1, 2 * UNIT), dispute(11, 1), dispute(11, 1)]);
    assert_eq!(p.account(11), Some(account(11, 0, 2 * UNIT, 2 * UNIT, false)));
}

#[test]
fn duplicate_deposit_id_is_not_reaccepted() {
    let once = run(&[deposit(12, 1, 2 * UNIT)]);
    let twice = run(&[deposit(12, 1, 2 * UNIT), deposit(12, 1, 2 * UNIT)]);
    assert_eq!(once.account(12), twice.account(12));
    let other_amount = run(&[deposit(12, 1, 2 * UNIT), deposit(12, 1, 5 * UNIT), dispute(12, 1)]);
    assert_eq!(other_amount.account(12), Some(account(12, 0, 2 * UNIT, 2 * UNIT, false)));
}

#[test]
fn ignored_transaction_applied_again_is_noop() {
    let mut p = run(&[deposit(13, 1, UNIT)]);
    p.handle(withdrawal(13, 2, 5 * UNIT));
    let first = p.account(13);
    p.handle(withdrawal(13, 2, 5 * UNIT));
    assert_eq!(p.account(13), first);
    assert_eq!(first, Some(account(13, UNIT, 0, UNIT, false)));
}

#[test]
fn missing_amount_is_ignored() {
    let p = run(&[tx(TransactionKind::Deposit, 14, 1, None), tx(TransactionKind::Withdrawal, 14, 2, None)]);
    assert_eq!(p.account(14), None);
}

#[test]
fn deposit_that_would_overflow_is_ignored() {
    let p = run(&[deposit(15, 1, i64::MAX), deposit(15, 2, 1)]);
    assert_eq!(p.account(15), Some(account(15, i64::MAX, 0, i64::MAX, false)));
}

#[test]
fn snapshot_is_ordered_by_client() {
    let p = run(&[deposit(9, 1, UNIT), deposit(2, 2, 2 * UNIT), deposit(65535, 3, 3 * UNIT), deposit(0, 4, 4 * UNIT)]);
    let clients: Vec<u16> = p.snapshot().iter().map(|a| a.client).collect();
    assert_eq!(clients, vec![0, 2, 9, 65535]);
    assert_eq!(p.snapshot()[1], account(2, 2 * UNIT, 0, 2 * UNIT, false));
}

#[test]
fn keys_separate_clients() {
    assert_eq!(key(0, 0), 0);
    assert_eq!(key(1, 0), 1 << 32);
    assert_eq!(key(65535, u32::MAX), u64::from(u16::MAX) << 32 | u64::from(u32::MAX));
    assert_ne!(key(1, 7), key(2, 7));
}

#[test]
fn units_from_parts_scales_to_four_digits() {
    assert_eq!(units_from_parts(15, 1), Some(15_000));
    assert_eq!(units_from_parts(-25, 2), Some(-2_500));
    assert_eq!(units_from_parts(12_345, 4), Some(12_345));
    assert_eq!(units_from_parts(7, 0), Some(70_000));
    assert_eq!(units_from_parts(1, 5), None);
    assert_eq!(units_from_parts(i64::MAX as i128, 1), None);
    assert_eq!(units_from_parts(i64::MAX as i128, 4), Some(i64::MAX));
    assert_eq!(units_from_parts(i64::MAX as i128 + 1, 4), None);
}

#[test]
fn decimal_amounts_convert_both_ways() {
    assert_eq!(amount_from_decimal(&Decimal::new(15, 1)), Some(15_000));
    assert_eq!(amount_from_decimal(&Decimal::new(250_000, 5)), Some(25_000));
    assert_eq!(amount_from_decimal(&Decimal::new(123_456, 5)), None);
    assert_eq!(decimal_from_units(12_345), Decimal::new(12_345, 4));
    assert_eq!(decimal_from_units(12_345).to_string(), "1.2345");
}
