use payment_engine::amount::Amount;
use payment_engine::engine::{Account, LedgerError, PaymentEngine};
use payment_engine::transaction::{Transaction, TransactionStatus, TransactionType};

fn tx(tx_type: TransactionType, client_id: u16, tx_id: u32, units: Option<i128>) -> Transaction {
    Transaction {
        tx_type,
        client_id,
        tx_id,
        amount: units.map(|u| Amount { units: u }),
        status: TransactionStatus::OK,
    }
}

fn deposit(c: u16, id: u32, units: i128) -> Transaction {
    tx(TransactionType::Deposit, c, id, Some(units))
}

fn withdrawal(c: u16, id: u32, units: i128) -> Transaction {
    tx(TransactionType::Withdrawal, c, id, Some(units))
}

fn dispute(c: u16, id: u32) -> Transaction {
    tx(TransactionType::Dispute, c, id, None)
}

fn resolve(c: u16, id: u32) -> Transaction {
    tx(TransactionType::Resolve, c, id, None)
}

fn chargeback(c: u16, id: u32) -> Transaction {
    tx(TransactionType::Chargeback, c, id, None)
}

fn run(txs: Vec<Transaction>) -> PaymentEngine {
    let mut engine = PaymentEngine::new();
    engine.process_all(&txs);
    engine
}

fn funds(a: &Account) -> (i128, i128, i128, bool) {
    (a.funds_available.units, a.funds_held.units, a.funds_total.units, a.locked)
}

fn account(engine: &PaymentEngine, c: u16) -> Account {
    engine.get_account(c).unwrap()
}

#[test]
fn scenario_single_deposit() {
    let e = run(vec![deposit(1, 1, 50000)]);
    assert_eq!(funds(&account(&e, 1)), (50000, 0, 50000, false));
    assert_eq!(account(&e, 1).num_transactions, 1);
}

#[test]
fn scenario_deposit_then_withdrawal() {
    let e = run(vec![deposit(1, 1, 50000), withdrawal(1, 2, 30000)]);
    assert_eq!(funds(&account(&e, 1)), (20000, 0, 20000, false));
}

#[test]
fn scenario_withdrawal_over_balance_is_declined() {
    let e = run(vec![deposit(1, 1, 50000), withdrawal(1, 2, 100000)]);
    assert_eq!(funds(&account(&e, 1)), (50000, 0, 50000, false));
    assert_eq!(account(&e, 1).num_transactions, 2);
}

#[test]
fn withdrawal_of_whole_balance() {
    let e = run(vec![deposit(1, 1, 50000), withdrawal(1, 2, 50000)]);
    assert_eq!(funds(&account(&e, 1)), (0, 0, 0, false));
}

#[test]
fn scenario_dispute_holds_funds() {
    let e = run(vec![deposit(1, 1, 50000), dispute(1, 1)]);
    assert_eq!(funds(&account(&e, 1)), (0, 50000, 50000, false));
    assert_eq!(e.get_transaction(1).unwrap().status, TransactionStatus::Disputed);
}

#[test]
fn scenario_chargeback_locks_account() {
    let e = run(vec![deposit(1, 1, 50000), dispute(1, 1), chargeback(1, 1)]);
    let a = account(&e, 1);
    assert_eq!(a.funds_held.units, 0);
    assert!(a.locked);
    assert_eq!(a.funds_total.units, a.funds_available.units + a.funds_held.units);
    assert_eq!(funds(&a), (50000, 0, 50000, true));
    assert_eq!(e.get_transaction(1).unwrap().status, TransactionStatus::Chargedback);
}

#[test]
fn scenario_dispute_of_unknown_transaction() {
    let e = run(vec![dispute(1, 99)]);
    assert_eq!(funds(&account(&e, 1)), (0, 0, 0, false));
    assert_eq!(account(&e, 1).num_transactions, 1);
    assert_eq!(e.get_transaction(99), None);
}

#[test]
fn totals_balance_after_mixed_run() {
    let e = run(vec![
        deposit(1, 1, 12345),
        deposit(2, 2, 70000),
        withdrawal(1, 3, 2345),
        dispute(2, 2),
        deposit(1, 4, 5),
        resolve(2, 2),
        dispute(1, 1),
        withdrawal(2, 5, 99999999),
        chargeback(1, 1),
    ]);
    for a in e.accounts() {
        assert_eq!(a.funds_total.units, a.funds_available.units + a.funds_held.units);
    }
    assert_eq!(funds(&account(&e, 2)), (70000, 0, 70000, false));
}

#[test]
fn locked_account_stays_locked() {
    let e = run(vec![
        deposit(1, 1, 50000),
        dispute(1, 1),
        chargeback(1, 1),
        deposit(1, 2, 10000),
        dispute(1, 2),
        resolve(1, 2),
        withdrawal(1, 3, 1),
    ]);
    assert!(account(&e, 1).locked);
}

#[test]
fn second_dispute_is_ignored() {
    let once = run(vec![deposit(1, 1, 50000), dispute(1, 1)]);
    let twice = run(vec![deposit(1, 1, 50000), dispute(1, 1), dispute(1, 1)]);
    assert_eq!(funds(&account(&once, 1)), funds(&account(&twice, 1)));
    assert_eq!(account(&twice, 1).num_transactions, 3);
}

#[test]
fn resolve_restores_pre_dispute_funds() {
    let before = run(vec![deposit(1, 1, 12345), deposit(1, 2, 1)]);
    let after = run(vec![deposit(1, 1, 12345), deposit(1, 2, 1), dispute(1, 1), resolve(1, 1)]);
    assert_eq!(funds(&account(&before, 1)), funds(&account(&after, 1)));
    assert_eq!(after.get_transaction(1).unwrap().status, TransactionStatus::OK);
}

#[test]
fn duplicate_deposit_id_is_ignored() {
    let e = run(vec![deposit(1, 1, 50000), deposit(1, 1, 30000)]);
    assert_eq!(funds(&account(&e, 1)), (50000, 0, 50000, false));
    assert_eq!(account(&e, 1).num_transactions, 2);
    assert_eq!(e.get_transaction(1).unwrap().amount, Some(Amount { units: 50000 }));
}

#[test]
fn dispute_by_other_client_is_ignored() {
    let e = run(vec![deposit(1, 1, 50000), dispute(2, 1), chargeback(2, 1)]);
    assert_eq!(funds(&account(&e, 1)), (50000, 0, 50000, false));
    assert_eq!(funds(&account(&e, 2)), (0, 0, 0, false));
}

#[test]
fn resolve_without_dispute_is_ignored() {
    let e = run(vec![deposit(1, 1, 50000), resolve(1, 1), chargeback(1, 1)]);
    assert_eq!(funds(&account(&e, 1)), (50000, 0, 50000, false));
}

#[test]
fn withdrawals_are_not_disputable() {
    let e = run(vec![deposit(1, 1, 50000), withdrawal(1, 2, 10000), dispute(1, 2)]);
    assert_eq!(funds(&account(&e, 1)), (40000, 0, 40000, false));
    assert_eq!(e.get_transaction(2), None);
}

#[test]
fn overflowing_deposit_is_ignored() {
    let e = run(vec![deposit(1, 1, i128::MAX), deposit(1, 2, 1)]);
    assert_eq!(funds(&account(&e, 1)), (i128::MAX, 0, i128::MAX, false));
    assert_eq!(e.get_transaction(2), None);
}

#[test]
fn accounts_in_opening_order() {
    let e = run(vec![deposit(3, 1, 1), dispute(1, 7), deposit(3, 2, 1), deposit(2, 3, 1)]);
    let ids: Vec<u16> = e.accounts().iter().map(|a| a.client_id).collect();
    assert_eq!(ids, vec![3, 1, 2]);
}

#[test]
fn store_primitives() {
    let mut e = PaymentEngine::new();
    assert_eq!(e.get_account(5), Err(LedgerError::UnknownClient));
    let a = e.get_or_create_account(5);
    assert_eq!(funds(&a), (0, 0, 0, false));
    assert_eq!(a.client_id, 5);
    assert!(e.get_account(5).is_ok());
    assert_eq!(e.record_deposit(deposit(5, 9, 10)), Ok(()));
    assert_eq!(e.record_deposit(deposit(5, 9, 20)), Err(LedgerError::DuplicateTransactionId));
    assert_eq!(e.get_transaction(9).unwrap().amount, Some(Amount { units: 10 }));
}
