use bus_mapping::{Account, Address, CodeDB, StateDB, Word, H256};

#[test]
fn word_zero_and_small_values() {
    assert!(Word::zero().is_zero());
    assert!(Word::default().is_zero());
    assert!(Word::from_u64(0).is_zero());
    assert!(!Word::from_u64(1).is_zero());
    assert!(!(Word { hi: 1, lo: 0 }).is_zero());
    assert_eq!(Word::from_u64(77).as_u64(), 77);
    assert_eq!(Word::from_u64(u64::MAX).as_u64(), u64::MAX);
    assert_eq!(Word::from_u64(5), Word { hi: 0, lo: 5 });
}

#[test]
fn word_fits_u64_at_the_edge() {
    assert!(Word::from_u64(u64::MAX).fits_u64());
    assert!(!(Word { hi: 0, lo: u64::MAX as u128 + 1 }).fits_u64());
    assert!(!(Word { hi: 1, lo: 0 }).fits_u64());
    assert!(Word::zero().fits_u64());
}

#[test]
fn addresses_and_hashes() {
    assert_eq!(Address::zero(), Address { hi: 0, lo: 0 });
    assert_eq!(Address::default(), Address::zero());
    assert_eq!(Address::from_low_u64(9), Address { hi: 0, lo: 9 });
    assert_ne!(Address::from_low_u64(9), Address::from_low_u64(10));
    assert_eq!(H256::zero(), H256 { hi: 0, lo: 0 });
    assert_eq!(H256::default(), H256::zero());
    assert_eq!(H256::from_low_u64(3), H256 { hi: 0, lo: 3 });
}

#[test]
fn state_db_lookup() {
    let mut sdb = StateDB::new();
    let a = Address::from_low_u64(1);
    let b = Address::from_low_u64(2);
    assert_eq!(sdb.get_account(&a), (false, Account::zero()));
    let first = Account { nonce: Word::from_u64(1), balance: Word::from_u64(10), code_hash: H256::from_low_u64(5) };
    let second = Account { nonce: Word::from_u64(2), balance: Word::from_u64(20), code_hash: H256::from_low_u64(6) };
    sdb.set_account(&a, first);
    assert_eq!(sdb.get_account(&a), (true, first));
    assert_eq!(sdb.get_account(&b), (false, Account::zero()));
    sdb.set_account(&b, second);
    sdb.set_account(&a, second);
    assert_eq!(sdb.get_account(&a), (true, second));
    assert_eq!(sdb.get_account(&b), (true, second));
}

#[test]
fn code_db_insert_and_get() {
    let mut codes = CodeDB::new();
    let h = H256::from_low_u64(1);
    assert_eq!(codes.len(), 0);
    assert_eq!(codes.get(&h), None);
    codes.insert(h, vec![1, 2, 3]);
    assert_eq!(codes.len(), 1);
    assert_eq!(codes.get(&h), Some(&vec![1, 2, 3]));
    codes.insert(h, vec![4]);
    assert_eq!(codes.len(), 1);
    assert_eq!(codes.get(&h), Some(&vec![4]));
    codes.insert(H256::from_low_u64(2), vec![]);
    assert_eq!(codes.len(), 2);
    assert_eq!(codes.get(&H256::from_low_u64(2)), Some(&vec![]));
    assert_eq!(codes.get(&H256::from_low_u64(3)), None);
}
