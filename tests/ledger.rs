use massa_bootstrap::ledger::{Ledger, LedgerError, Operation};

fn total(l: &Ledger, n: usize) -> u128 {
    let mut t: u128 = 0;
    for i in 0..n {
        t += l.balance(i).unwrap() as u128;
    }
    t
}

#[test]
fn reward_and_transfer_with_fee() {
    let mut l = Ledger::new(3);
    assert!(l.apply_block(0, 100, &vec![]).is_ok());
    let ops = vec![Operation::Transfer { from: 0, to: 1, amount: 30, fee: 5 }];
    assert!(l.apply_block(2, 10, &ops).is_ok());
    assert_eq!(l.balance(0), Some(65));
    assert_eq!(l.balance(1), Some(30));
    assert_eq!(l.balance(2), Some(15));
    assert_eq!(l.balance(3), None);
    assert_eq!(l.issued(), 110);
    assert_eq!(total(&l, 3), l.issued() - l.burned());
}

#[test]
fn burn_is_accounted() {
    let mut l = Ledger::new(2);
    assert!(l.apply_block(1, 50, &vec![Operation::Burn { from: 1, amount: 20 }]).is_ok());
    assert_eq!(l.balance(1), Some(30));
    assert_eq!(l.burned(), 20);
    assert_eq!(total(&l, 2), l.issued() - l.burned());
}

#[test]
fn failed_block_changes_nothing() {
    let mut l = Ledger::new(2);
    assert!(l.apply_block(0, 10, &vec![]).is_ok());
    let ops = vec![
        Operation::Transfer { from: 0, to: 1, amount: 4, fee: 1 },
        Operation::Transfer { from: 0, to: 1, amount: 6, fee: 0 },
    ];
    assert_eq!(l.apply_block(1, 3, &ops).err(), Some(LedgerError::InsufficientBalance));
    assert_eq!(l.balance(0), Some(10));
    assert_eq!(l.balance(1), Some(0));
    assert_eq!(l.issued(), 10);
}

#[test]
fn ledger_errors() {
    let mut l = Ledger::new(1);
    assert_eq!(l.apply_block(5, 1, &vec![]).err(), Some(LedgerError::UnknownAccount));
    assert!(l.apply_block(0, u64::MAX, &vec![]).is_ok());
    assert_eq!(l.apply_block(0, 1, &vec![]).err(), Some(LedgerError::Overflow));
    let ops = vec![Operation::Transfer { from: 0, to: 0, amount: u64::MAX, fee: 1 }];
    assert_eq!(l.apply_block(0, 0, &ops).err(), Some(LedgerError::Overflow));
    assert_eq!(l.balance(0), Some(u64::MAX));
}

#[test]
fn rollback_restores_the_state_before_the_block() {
    let mut l = Ledger::new(3);
    assert!(l.apply_block(0, 100, &vec![]).is_ok());
    let ops = vec![
        Operation::Transfer { from: 0, to: 1, amount: 40, fee: 2 },
        Operation::Burn { from: 1, amount: 10 },
    ];
    let undo = l.apply_block(2, 7, &ops).unwrap();
    assert_eq!(l.balance(1), Some(30));
    l.rollback(&undo);
    assert_eq!(l.balance(0), Some(100));
    assert_eq!(l.balance(1), Some(0));
    assert_eq!(l.balance(2), Some(0));
    assert_eq!(l.issued(), 100);
    assert_eq!(l.burned(), 0);
}
