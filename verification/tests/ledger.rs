use blockchain::structures::{
    bytes_equal, copy_bytes, reinterpret_signed, reinterpret_unsigned, serialize_transaction, Block,
    Ledger, SignedTransaction, Transaction, INITIAL_BALANCE,
};

#[test]
fn new_ledger_is_empty() {
    let ledger = Ledger::new();
    assert_eq!(ledger.len(), 0);
    assert_eq!(ledger.balance(&[1, 2, 3]), None);
    assert!(ledger.entries().is_empty());
}

#[test]
fn fresh_account_starts_at_initial_balance_whatever_the_amount() {
    let mut ledger = Ledger::new();
    ledger.update_account(&vec![7u8], -30);
    assert_eq!(ledger.balance(&[7]), Some(INITIAL_BALANCE));
    assert_eq!(INITIAL_BALANCE, 100);
    ledger.update_account(&vec![8u8], 5000);
    assert_eq!(ledger.balance(&[8]), Some(100));
    assert_eq!(ledger.len(), 2);
}

#[test]
fn existing_account_moves_by_amount() {
    let mut ledger = Ledger::new();
    let a = vec![1u8, 2];
    ledger.update_account(&a, 0);
    ledger.update_account(&a, 25);
    assert_eq!(ledger.balance(&a), Some(125));
    ledger.update_account(&a, -120);
    assert_eq!(ledger.balance(&a), Some(5));
    assert_eq!(ledger.len(), 1);
}

#[test]
fn balance_below_zero_wraps_as_unsigned() {
    let mut ledger = Ledger::new();
    let a = vec![9u8];
    ledger.update_account(&a, 0);
    ledger.update_account(&a, -101);
    assert_eq!(ledger.balance(&a), Some(u64::MAX));
    ledger.update_account(&a, 1);
    assert_eq!(ledger.balance(&a), Some(0));
}

#[test]
fn other_accounts_are_untouched() {
    let mut ledger = Ledger::new();
    let a = vec![1u8];
    let b = vec![2u8];
    ledger.update_account(&a, 0);
    ledger.update_account(&b, 0);
    ledger.update_account(&a, 40);
    assert_eq!(ledger.balance(&a), Some(140));
    assert_eq!(ledger.balance(&b), Some(100));
}

#[test]
fn entries_list_each_account_once() {
    let mut ledger = Ledger::new();
    ledger.update_account(&vec![1u8], 0);
    ledger.update_account(&vec![2u8], 0);
    ledger.update_account(&vec![1u8], 3);
    let entries = ledger.entries();
    assert_eq!(entries, vec![(vec![1u8], 103u64), (vec![2u8], 100u64)]);
}

#[test]
fn signed_reinterpretation() {
    assert_eq!(reinterpret_signed(5), 5);
    assert_eq!(reinterpret_signed(u64::MAX), -1);
    assert_eq!(reinterpret_signed(1u64 << 63), i64::MIN);
    assert_eq!(reinterpret_unsigned(-1), u64::MAX);
    assert_eq!(reinterpret_unsigned(i64::MIN), 1u64 << 63);
    assert_eq!(reinterpret_unsigned(77), 77);
    for x in [0u64, 1, 99, u64::MAX, 1 << 63, (1 << 63) - 1] {
        assert_eq!(reinterpret_unsigned(reinterpret_signed(x)), x);
        assert_eq!(reinterpret_signed(x), x as i64);
    }
}

#[test]
fn bytes_helpers() {
    assert!(bytes_equal(&[1, 2, 3], &[1, 2, 3]));
    assert!(!bytes_equal(&[1, 2, 3], &[1, 2]));
    assert!(!bytes_equal(&[1, 2, 3], &[1, 2, 4]));
    assert_eq!(copy_bytes(&vec![4u8, 5]), vec![4u8, 5]);
}

#[test]
fn transaction_encoding_exact_bytes() {
    let t = Transaction { from: vec![0xaa], to: vec![0xbb, 0xcc], amount: 0x0102 };
    let bytes = serialize_transaction(&t);
    assert_eq!(
        bytes,
        vec![
            1, 0, 0, 0, 0, 0, 0, 0, 0xaa, 2, 0, 0, 0, 0, 0, 0, 0, 0xbb, 0xcc, 0x02, 0x01, 0, 0, 0, 0,
            0, 0
        ]
    );
}

#[test]
fn transaction_encoding_matches_bincode() {
    let t = Transaction { from: vec![1, 2, 3, 4, 5], to: vec![], amount: u64::MAX - 7 };
    let expected = bincode::serialize(&(t.from.clone(), t.to.clone(), t.amount)).unwrap();
    assert_eq!(serialize_transaction(&t), expected);
    assert_eq!(serialize_transaction(&t).len(), 24 + 5);
}

#[test]
fn duplicates_are_equal() {
    let t = Transaction { from: vec![1], to: vec![2], amount: 3 };
    assert_eq!(t.duplicate(), t);
    let st = SignedTransaction { transaction: t.clone(), signature: vec![9, 9] };
    assert_eq!(st.duplicate(), st);
    let b = Block { transactions: vec![t.clone(), t], previous_signature: vec![1], signature: vec![] };
    assert_eq!(b.duplicate(), b);
}
