use txledger::account::Account;
use txledger::errors::ErrorKind;
use txledger::fields::format_amount;
use txledger::ledger::Ledger;
use txledger::transaction::TransactionRecord;
use txledger::transaction::TransactionType;

fn deposit(client_id: u16, tx_id: u32, amount: u64) -> TransactionRecord {
    TransactionRecord {
        tx_type: TransactionType::Deposit,
        client_id,
        tx_id,
        amount: Some(amount),
    }
}

fn withdrawal(client_id: u16, tx_id: u32, amount: u64) -> TransactionRecord {
    TransactionRecord {
        tx_type: TransactionType::Withdrawal,
        client_id,
        tx_id,
        amount: Some(amount),
    }
}

fn reference(tx_type: TransactionType, client_id: u16, tx_id: u32) -> TransactionRecord {
    TransactionRecord {
        tx_type,
        client_id,
        tx_id,
        amount: None,
    }
}

#[test]
fn new_ledger_is_empty() {
    let l = Ledger::new();
    assert!(l.account(0).is_none());
    assert!(l.account(42).is_none());
    assert_eq!(l.accounts_in_order().len(), 0);
}

#[test]
fn account_new_is_zeroed() {
    let a = Account::new(9);
    assert_eq!(a.id, 9);
    assert_eq!(a.available, 0);
    assert_eq!(a.held, 0);
    assert_eq!(a.total, 0);
    assert!(!a.frozen);
}

#[test]
fn deposits_only_keep_held_zero() {
    let mut l = Ledger::new();
    assert!(l.apply(deposit(1, 1, 100_000)).is_ok());
    assert!(l.apply(deposit(2, 2, 55_500)).is_ok());
    assert!(l.apply(deposit(1, 3, 1)).is_ok());
    for a in l.accounts_in_order() {
        assert_eq!(a.held, 0);
        assert_eq!(a.total, a.available);
    }
    assert_eq!(l.account(1).unwrap().available, 100_001);
    assert_eq!(l.account(2).unwrap().available, 55_500);
}

#[test]
fn total_is_available_plus_held_after_every_record() {
    let mut l = Ledger::new();
    let records = vec![
        deposit(1, 1, 50_000),
        deposit(2, 2, 70_000),
        withdrawal(1, 3, 20_000),
        reference(TransactionType::Dispute, 1, 1),
        reference(TransactionType::Resolve, 1, 1),
        reference(TransactionType::Dispute, 2, 2),
        reference(TransactionType::Chargeback, 2, 2),
        deposit(2, 4, 10),
    ];
    for r in records {
        let _ = l.apply(r);
        for a in l.accounts_in_order() {
            assert_eq!(a.total, a.available + a.held);
        }
    }
}

#[test]
fn withdrawal_never_exceeds_available() {
    let mut l = Ledger::new();
    assert!(l.apply(deposit(1, 1, 30_000)).is_ok());
    let before = l.account(1).unwrap();
    let res = l.apply(withdrawal(1, 2, 30_001));
    assert_eq!(res, Err(ErrorKind::InsufficientFunds));
    assert_eq!(l.account(1).unwrap(), before);
    // the rejected record stored nothing: its id is still free
    assert!(l.apply(deposit(1, 2, 1)).is_ok());
}

#[test]
fn withdrawal_from_unknown_account_is_rejected() {
    let mut l = Ledger::new();
    let res = l.apply(withdrawal(5, 1, 100));
    assert_eq!(res, Err(ErrorKind::UnknownAccount));
    assert!(l.account(5).is_none());
}

#[test]
fn missing_amount_is_rejected() {
    let mut l = Ledger::new();
    let res = l.apply(reference(TransactionType::Deposit, 1, 1));
    assert_eq!(res, Err(ErrorKind::MissingAmount));
    assert!(l.account(1).is_none());
    let res = l.apply(reference(TransactionType::Withdrawal, 1, 1));
    assert_eq!(res, Err(ErrorKind::MissingAmount));
}

#[test]
fn dispute_moves_amount_and_resolve_reverses_it() {
    let mut l = Ledger::new();
    assert!(l.apply(deposit(1, 1, 40_000)).is_ok());
    assert!(l.apply(deposit(1, 2, 10_000)).is_ok());
    let before = l.account(1).unwrap();
    assert!(l.apply(reference(TransactionType::Dispute, 1, 2)).is_ok());
    let during = l.account(1).unwrap();
    assert_eq!(during.available, before.available - 10_000);
    assert_eq!(during.held, before.held + 10_000);
    assert_eq!(during.total, before.total);
    assert!(l.apply(reference(TransactionType::Resolve, 1, 2)).is_ok());
    assert_eq!(l.account(1).unwrap(), before);
}

#[test]
fn dispute_of_unknown_transaction_is_rejected() {
    let mut l = Ledger::new();
    assert!(l.apply(deposit(1, 1, 40_000)).is_ok());
    let res = l.apply(reference(TransactionType::Dispute, 1, 99));
    assert_eq!(res, Err(ErrorKind::UnknownTransaction));
    assert_eq!(l.account(1).unwrap().held, 0);
}

#[test]
fn resolve_without_dispute_is_rejected() {
    let mut l = Ledger::new();
    assert!(l.apply(deposit(1, 1, 40_000)).is_ok());
    let res = l.apply(reference(TransactionType::Resolve, 1, 1));
    assert_eq!(res, Err(ErrorKind::NotDisputed));
    assert_eq!(l.account(1).unwrap().available, 40_000);
}

#[test]
fn chargeback_without_dispute_is_rejected() {
    let mut l = Ledger::new();
    assert!(l.apply(deposit(1, 1, 40_000)).is_ok());
    let res = l.apply(reference(TransactionType::Chargeback, 1, 1));
    assert_eq!(res, Err(ErrorKind::NotDisputed));
    let a = l.account(1).unwrap();
    assert!(!a.frozen);
    assert_eq!(a.available, 40_000);
}

#[test]
fn chargeback_removes_held_funds_and_freezes() {
    let mut l = Ledger::new();
    assert!(l.apply(deposit(1, 1, 50_000)).is_ok());
    assert!(l.apply(reference(TransactionType::Dispute, 1, 1)).is_ok());
    assert!(l.apply(reference(TransactionType::Chargeback, 1, 1)).is_ok());
    let a = l.account(1).unwrap();
    assert_eq!(a.available, 0);
    assert_eq!(a.held, 0);
    assert_eq!(a.total, 0);
    assert!(a.frozen);
    // a frozen account rejects deposits and withdrawals unchanged
    let res = l.apply(deposit(1, 2, 10_000));
    assert_eq!(res, Err(ErrorKind::AccountFrozen));
    let res = l.apply(withdrawal(1, 3, 1));
    assert_eq!(res, Err(ErrorKind::AccountFrozen));
    assert_eq!(l.account(1).unwrap(), a);
}

#[test]
fn deposit_then_withdrawal_round_trip() {
    let mut l = Ledger::new();
    assert!(l.apply(deposit(1, 1, 100_000)).is_ok());
    assert!(l.apply(withdrawal(1, 2, 30_000)).is_ok());
    let a = l.account(1).unwrap();
    assert_eq!(format_amount(a.available), "7.0000");
    assert_eq!(format_amount(a.held), "0.0000");
    assert_eq!(format_amount(a.total), "7.0000");
    assert!(!a.frozen);
}

#[test]
fn dispute_then_chargeback_scenario() {
    let mut l = Ledger::new();
    assert!(l.apply(deposit(1, 1, 50_000)).is_ok());
    assert!(l.apply(reference(TransactionType::Dispute, 1, 1)).is_ok());
    let a = l.account(1).unwrap();
    assert_eq!(format_amount(a.available), "0.0000");
    assert_eq!(format_amount(a.held), "5.0000");
    assert_eq!(format_amount(a.total), "5.0000");
    assert!(l.apply(reference(TransactionType::Chargeback, 1, 1)).is_ok());
    let a = l.account(1).unwrap();
    assert_eq!(format_amount(a.available), "0.0000");
    assert_eq!(format_amount(a.held), "0.0000");
    assert_eq!(format_amount(a.total), "0.0000");
    assert!(a.frozen);
    let res = l.apply(deposit(1, 3, 10_000));
    assert_eq!(res, Err(ErrorKind::AccountFrozen));
}

#[test]
fn duplicate_transaction_id_keeps_first_deposit() {
    let mut l = Ledger::new();
    assert!(l.apply(deposit(1, 7, 20_000)).is_ok());
    let before = l.account(1).unwrap();
    let res = l.apply(deposit(1, 7, 999_999));
    assert_eq!(res, Err(ErrorKind::DuplicateTransactionId));
    assert_eq!(l.account(1).unwrap(), before);
    // the stored record still carries the first amount
    assert!(l.apply(reference(TransactionType::Dispute, 1, 7)).is_ok());
    assert_eq!(l.account(1).unwrap().held, 20_000);
}

#[test]
fn duplicate_id_across_kinds_is_rejected() {
    let mut l = Ledger::new();
    assert!(l.apply(deposit(1, 1, 20_000)).is_ok());
    let res = l.apply(withdrawal(1, 1, 5_000));
    assert_eq!(res, Err(ErrorKind::DuplicateTransactionId));
    assert_eq!(l.account(1).unwrap().available, 20_000);
}

#[test]
fn oversized_deposit_is_rejected() {
    let mut l = Ledger::new();
    let res = l.apply(deposit(1, 1, u64::MAX));
    assert_eq!(res, Err(ErrorKind::BalanceOverflow));
    assert!(l.account(1).is_none());
    assert!(l.apply(deposit(1, 2, i64::MAX as u64)).is_ok());
    let res = l.apply(deposit(1, 3, 1));
    assert_eq!(res, Err(ErrorKind::BalanceOverflow));
    assert_eq!(l.account(1).unwrap().available, i64::MAX);
}

#[test]
fn dispute_may_drive_available_negative() {
    let mut l = Ledger::new();
    assert!(l.apply(deposit(1, 1, 100_000)).is_ok());
    assert!(l.apply(withdrawal(1, 2, 100_000)).is_ok());
    assert!(l.apply(reference(TransactionType::Dispute, 1, 1)).is_ok());
    let a = l.account(1).unwrap();
    assert_eq!(a.available, -100_000);
    assert_eq!(a.held, 100_000);
    assert_eq!(a.total, 0);
}

#[test]
fn apply_all_matches_one_by_one() {
    let records = vec![
        deposit(3, 1, 10_000),
        deposit(4, 2, 20_000),
        withdrawal(3, 3, 5_000),
        reference(TransactionType::Dispute, 4, 2),
        withdrawal(9, 4, 1),
    ];
    let mut folded = Ledger::new();
    folded.apply_all(&records);
    let mut stepped = Ledger::new();
    for r in &records {
        let _ = stepped.apply(*r);
    }
    assert_eq!(folded.account(3), stepped.account(3));
    assert_eq!(folded.account(4), stepped.account(4));
    assert_eq!(folded.account(9), stepped.account(9));
    assert_eq!(folded.account(3).unwrap().available, 5_000);
}

#[test]
fn accounts_in_order_of_first_appearance() {
    let mut l = Ledger::new();
    assert!(l.apply(deposit(7, 1, 100)).is_ok());
    assert!(l.apply(deposit(2, 2, 200)).is_ok());
    assert!(l.apply(deposit(7, 3, 300)).is_ok());
    let v = l.accounts_in_order();
    assert_eq!(v.len(), 2);
    assert_eq!(v[0].id, 7);
    assert_eq!(v[0].available, 400);
    assert_eq!(v[1].id, 2);
    assert_eq!(v[1].available, 200);
}
