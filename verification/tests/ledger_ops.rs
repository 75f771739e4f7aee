use betting_ledger::entities::Error;
use betting_ledger::store::BettingStore;

#[test]
fn credit_adds_to_balance() {
    let mut s = BettingStore::new();
    s.add_user(1, "alice".to_string(), 100).unwrap();
    assert!(s.credit(1, 25).is_ok());
    assert_eq!(s.get_user(1).unwrap().balance, 125);
}

#[test]
fn credit_missing_user_is_not_found() {
    let mut s = BettingStore::new();
    assert_eq!(s.credit(1, 25).unwrap_err(), Error::NotFound);
}

#[test]
fn credit_overflow_is_rejected_and_balance_unchanged() {
    let mut s = BettingStore::new();
    s.add_user(1, "alice".to_string(), u64::MAX - 10).unwrap();
    assert_eq!(s.credit(1, 11).unwrap_err(), Error::InvalidInput);
    assert_eq!(s.get_user(1).unwrap().balance, u64::MAX - 10);
    assert!(s.credit(1, 10).is_ok());
    assert_eq!(s.get_user(1).unwrap().balance, u64::MAX);
}

#[test]
fn debit_subtracts_from_balance() {
    let mut s = BettingStore::new();
    s.add_user(1, "alice".to_string(), 100).unwrap();
    assert!(s.debit(1, 40).is_ok());
    assert_eq!(s.get_user(1).unwrap().balance, 60);
}

#[test]
fn debit_missing_user_is_not_found() {
    let mut s = BettingStore::new();
    assert_eq!(s.debit(1, 1).unwrap_err(), Error::NotFound);
}

#[test]
fn debit_beyond_balance_is_rejected_and_balance_unchanged() {
    let mut s = BettingStore::new();
    s.add_user(1, "alice".to_string(), 100).unwrap();
    assert_eq!(s.debit(1, 101).unwrap_err(), Error::InvalidInput);
    assert_eq!(s.get_user(1).unwrap().balance, 100);
}

#[test]
fn debit_of_entire_balance_reaches_zero_not_below() {
    let mut s = BettingStore::new();
    s.add_user(1, "alice".to_string(), 100).unwrap();
    assert!(s.debit(1, 100).is_ok());
    assert_eq!(s.get_user(1).unwrap().balance, 0);
    assert_eq!(s.debit(1, 1).unwrap_err(), Error::InvalidInput);
    assert_eq!(s.get_user(1).unwrap().balance, 0);
}

#[test]
fn balance_stays_in_range_under_mixed_sequences() {
    let mut s = BettingStore::new();
    s.add_user(1, "alice".to_string(), 10).unwrap();
    let _ = s.credit(1, 5);
    let _ = s.debit(1, 12);
    let _ = s.debit(1, 20);
    let _ = s.credit(1, u64::MAX);
    let _ = s.debit(1, 3);
    assert_eq!(s.get_user(1).unwrap().balance, 0);
}

#[test]
fn ledger_does_not_touch_other_records() {
    let mut s = BettingStore::new();
    s.add_user(1, "alice".to_string(), 100).unwrap();
    s.add_game(10, "final".to_string(), 0, 200).unwrap();
    s.create_pool(2, 10, 0).unwrap();
    s.credit(1, 1).unwrap();
    s.debit(1, 1).unwrap();
    assert_eq!(s.get_game(10).unwrap().end_time, 200);
    assert_eq!(s.get_pool(2).unwrap().total_amount, 0);
}
