use betting_ledger::entities::{Error, GameOutcome};
use betting_ledger::store::BettingStore;

fn store_with_bet(chosen: GameOutcome) -> BettingStore {
    let mut s = BettingStore::new();
    s.add_user(1, "alice".to_string(), 100).unwrap();
    s.add_game(10, "final".to_string(), 50, 200).unwrap();
    s.place_bet(1, 40, 10, chosen, 77, 150).unwrap();
    s
}

#[test]
fn winning_bet_is_credited_and_escrow_removed() {
    let mut s = store_with_bet(GameOutcome::Win);
    assert_eq!(s.get_user(1).unwrap().balance, 60);
    s.add_results(5, 10, GameOutcome::Win, 250).unwrap();
    assert!(s.release_funds(10).is_ok());
    assert_eq!(s.get_user(1).unwrap().balance, 100);
    assert_eq!(s.get_escrow(77).unwrap_err(), Error::NotFound);
}

#[test]
fn losing_bet_stake_is_retired_without_credit() {
    let mut s = store_with_bet(GameOutcome::Loss);
    s.add_results(5, 10, GameOutcome::Win, 250).unwrap();
    assert!(s.release_funds(10).is_ok());
    assert_eq!(s.get_user(1).unwrap().balance, 60);
    assert_eq!(s.get_escrow(77).unwrap_err(), Error::NotFound);
}

#[test]
fn bet_persists_as_audit_record_after_settlement() {
    let mut s = store_with_bet(GameOutcome::Win);
    s.add_results(5, 10, GameOutcome::Win, 250).unwrap();
    s.release_funds(10).unwrap();
    let bet = s.get_bet(77).unwrap();
    assert_eq!(bet.amount, 40);
}

#[test]
fn release_without_result_is_not_found_and_changes_nothing() {
    let mut s = store_with_bet(GameOutcome::Win);
    assert_eq!(s.release_funds(10).unwrap_err(), Error::NotFound);
    assert_eq!(s.get_user(1).unwrap().balance, 60);
    assert_eq!(s.get_escrow(77).unwrap().amount, 40);
}

#[test]
fn release_is_a_no_op_the_second_time() {
    let mut s = store_with_bet(GameOutcome::Win);
    s.add_results(5, 10, GameOutcome::Win, 250).unwrap();
    assert!(s.release_funds(10).is_ok());
    assert_eq!(s.get_user(1).unwrap().balance, 100);
    assert!(s.release_funds(10).is_ok());
    assert_eq!(s.get_user(1).unwrap().balance, 100);
    assert_eq!(s.get_escrow(77).unwrap_err(), Error::NotFound);
}

#[test]
fn release_before_any_bets_is_a_no_op() {
    let mut s = BettingStore::new();
    s.add_user(1, "alice".to_string(), 100).unwrap();
    s.add_game(10, "final".to_string(), 50, 200).unwrap();
    s.add_results(5, 10, GameOutcome::Win, 250).unwrap();
    assert!(s.release_funds(10).is_ok());
    assert_eq!(s.get_user(1).unwrap().balance, 100);
}

#[test]
fn settlement_only_touches_escrows_of_the_settled_game() {
    let mut s = BettingStore::new();
    s.add_user(1, "alice".to_string(), 100).unwrap();
    s.add_user(2, "bob".to_string(), 100).unwrap();
    s.add_game(10, "final".to_string(), 50, 200).unwrap();
    s.add_game(20, "cup".to_string(), 50, 200).unwrap();
    s.place_bet(1, 40, 10, GameOutcome::Win, 77, 150).unwrap();
    s.place_bet(2, 30, 20, GameOutcome::Win, 88, 150).unwrap();
    s.add_results(5, 10, GameOutcome::Win, 250).unwrap();
    assert!(s.release_funds(10).is_ok());
    assert_eq!(s.get_user(1).unwrap().balance, 100);
    assert_eq!(s.get_user(2).unwrap().balance, 70);
    assert_eq!(s.get_escrow(77).unwrap_err(), Error::NotFound);
    assert_eq!(s.get_escrow(88).unwrap().amount, 30);
}

#[test]
fn settlement_credits_each_winner_exactly_once() {
    let mut s = BettingStore::new();
    s.add_user(1, "alice".to_string(), 100).unwrap();
    s.add_user(2, "bob".to_string(), 50).unwrap();
    s.add_user(3, "carol".to_string(), 50).unwrap();
    s.add_game(10, "final".to_string(), 50, 200).unwrap();
    s.place_bet(1, 40, 10, GameOutcome::Draw, 77, 150).unwrap();
    s.place_bet(2, 20, 10, GameOutcome::Win, 88, 150).unwrap();
    s.place_bet(3, 10, 10, GameOutcome::Draw, 99, 150).unwrap();
    s.add_results(5, 10, GameOutcome::Draw, 250).unwrap();
    assert!(s.release_funds(10).is_ok());
    assert_eq!(s.get_user(1).unwrap().balance, 100);
    assert_eq!(s.get_user(2).unwrap().balance, 30);
    assert_eq!(s.get_user(3).unwrap().balance, 50);
}

#[test]
fn user_with_two_winning_bets_is_credited_both_stakes() {
    let mut s = BettingStore::new();
    s.add_user(1, "alice".to_string(), 100).unwrap();
    s.add_game(10, "final".to_string(), 50, 200).unwrap();
    s.place_bet(1, 40, 10, GameOutcome::Win, 77, 150).unwrap();
    s.place_bet(1, 25, 10, GameOutcome::Win, 78, 151).unwrap();
    assert_eq!(s.get_user(1).unwrap().balance, 35);
    s.add_results(5, 10, GameOutcome::Win, 250).unwrap();
    assert!(s.release_funds(10).is_ok());
    assert_eq!(s.get_user(1).unwrap().balance, 100);
}

#[test]
fn settlement_uses_first_result_recorded_for_the_game() {
    let mut s = store_with_bet(GameOutcome::Win);
    s.add_results(4, 30, GameOutcome::Loss, 240).unwrap();
    s.add_results(5, 10, GameOutcome::Win, 250).unwrap();
    s.add_results(6, 10, GameOutcome::Loss, 260).unwrap();
    assert!(s.release_funds(10).is_ok());
    assert_eq!(s.get_user(1).unwrap().balance, 100);
}

#[test]
fn settlement_stops_with_not_found_when_a_bet_is_missing() {
    let mut s = store_with_bet(GameOutcome::Win);
    s.delete_bet(77).unwrap();
    s.add_results(5, 10, GameOutcome::Win, 250).unwrap();
    assert_eq!(s.release_funds(10).unwrap_err(), Error::NotFound);
    assert_eq!(s.get_escrow(77).unwrap().amount, 40);
    assert_eq!(s.get_user(1).unwrap().balance, 60);
}

#[test]
fn settlement_stops_with_not_found_when_a_winning_user_is_missing() {
    let mut s = store_with_bet(GameOutcome::Win);
    s.delete_user(1).unwrap();
    s.add_results(5, 10, GameOutcome::Win, 250).unwrap();
    assert_eq!(s.release_funds(10).unwrap_err(), Error::NotFound);
    assert_eq!(s.get_escrow(77).unwrap().amount, 40);
}

#[test]
fn settlement_stops_with_invalid_input_when_a_credit_would_overflow() {
    let mut s = store_with_bet(GameOutcome::Win);
    s.update_user(1, "alice".to_string(), u64::MAX - 10).unwrap();
    s.add_results(5, 10, GameOutcome::Win, 250).unwrap();
    assert_eq!(s.release_funds(10).unwrap_err(), Error::InvalidInput);
    assert_eq!(s.get_user(1).unwrap().balance, u64::MAX - 10);
    assert_eq!(s.get_escrow(77).unwrap().amount, 40);
}

#[test]
fn failed_pass_can_be_resumed_after_mending_the_store() {
    let mut s = BettingStore::new();
    s.add_user(1, "alice".to_string(), 100).unwrap();
    s.add_user(2, "bob".to_string(), 100).unwrap();
    s.add_game(10, "final".to_string(), 50, 200).unwrap();
    s.place_bet(1, 40, 10, GameOutcome::Win, 77, 150).unwrap();
    s.place_bet(2, 30, 10, GameOutcome::Win, 88, 150).unwrap();
    s.delete_bet(88).unwrap();
    s.add_results(5, 10, GameOutcome::Win, 250).unwrap();
    assert_eq!(s.release_funds(10).unwrap_err(), Error::NotFound);
    // The first escrow was retired and its user credited; the second is pending.
    assert_eq!(s.get_user(1).unwrap().balance, 100);
    assert_eq!(s.get_escrow(77).unwrap_err(), Error::NotFound);
    assert_eq!(s.get_escrow(88).unwrap().amount, 30);
    s.add_bet(88, 2, 30, 10, GameOutcome::Win, 150).unwrap();
    assert!(s.release_funds(10).is_ok());
    assert_eq!(s.get_user(1).unwrap().balance, 100);
    assert_eq!(s.get_user(2).unwrap().balance, 100);
    assert_eq!(s.get_escrow(88).unwrap_err(), Error::NotFound);
}
