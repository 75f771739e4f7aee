use betting_ledger::entities::{Error, GameOutcome};
use betting_ledger::store::BettingStore;

fn store_with_user_and_game() -> BettingStore {
    let mut s = BettingStore::new();
    s.add_user(1, "alice".to_string(), 100).unwrap();
    s.add_game(10, "final".to_string(), 50, 200).unwrap();
    s
}

#[test]
fn place_bet_debits_and_records_bet_and_escrow() {
    let mut s = store_with_user_and_game();
    let bet = s.place_bet(1, 40, 10, GameOutcome::Win, 77, 150).unwrap();
    assert_eq!(bet.id, 77);
    assert_eq!(bet.user_id, 1);
    assert_eq!(bet.amount, 40);
    assert_eq!(bet.game_id, 10);
    assert_eq!(bet.chosen_outcome, GameOutcome::Win);
    assert_eq!(bet.timestamp, 150);
    assert_eq!(s.get_user(1).unwrap().balance, 60);
    let stored = s.get_bet(77).unwrap();
    assert_eq!(stored, bet);
    let escrow = s.get_escrow(77).unwrap();
    assert_eq!(escrow.game_id, 10);
    assert_eq!(escrow.amount, 40);
    assert_eq!(escrow.bet_id, 77);
}

#[test]
fn place_bet_missing_user_is_not_found() {
    let mut s = BettingStore::new();
    s.add_game(10, "final".to_string(), 50, 200).unwrap();
    assert_eq!(s.place_bet(1, 40, 10, GameOutcome::Win, 77, 150).unwrap_err(), Error::NotFound);
}

#[test]
fn place_bet_missing_game_is_not_found() {
    let mut s = BettingStore::new();
    s.add_user(1, "alice".to_string(), 100).unwrap();
    assert_eq!(s.place_bet(1, 40, 10, GameOutcome::Win, 77, 150).unwrap_err(), Error::NotFound);
}

#[test]
fn place_bet_at_or_after_end_time_is_rejected() {
    let mut s = store_with_user_and_game();
    assert_eq!(s.place_bet(1, 40, 10, GameOutcome::Win, 77, 200).unwrap_err(), Error::InvalidInput);
    assert_eq!(s.place_bet(1, 40, 10, GameOutcome::Win, 77, 300).unwrap_err(), Error::InvalidInput);
    assert_eq!(s.get_user(1).unwrap().balance, 100);
    assert_eq!(s.get_bet(77).unwrap_err(), Error::NotFound);
    assert!(s.place_bet(1, 40, 10, GameOutcome::Win, 77, 199).is_ok());
}

#[test]
fn place_bet_beyond_balance_is_rejected_without_partial_debit() {
    let mut s = store_with_user_and_game();
    assert_eq!(
        s.place_bet(1, 101, 10, GameOutcome::Win, 77, 150).unwrap_err(),
        Error::InvalidInput
    );
    assert_eq!(s.get_user(1).unwrap().balance, 100);
    assert_eq!(s.get_bet(77).unwrap_err(), Error::NotFound);
    assert_eq!(s.get_escrow(77).unwrap_err(), Error::NotFound);
}

#[test]
fn place_bet_of_entire_balance_is_allowed() {
    let mut s = store_with_user_and_game();
    assert!(s.place_bet(1, 100, 10, GameOutcome::Draw, 77, 150).is_ok());
    assert_eq!(s.get_user(1).unwrap().balance, 0);
}

#[test]
fn schedule_game_rejects_inverted_or_empty_window() {
    let mut s = BettingStore::new();
    assert_eq!(
        s.schedule_game(10, "final".to_string(), 200, 100, 50).unwrap_err(),
        Error::InvalidInput
    );
    assert_eq!(
        s.schedule_game(10, "final".to_string(), 100, 100, 50).unwrap_err(),
        Error::InvalidInput
    );
    assert_eq!(s.get_game(10).unwrap_err(), Error::NotFound);
}

#[test]
fn schedule_game_rejects_windows_already_in_the_past() {
    let mut s = BettingStore::new();
    assert_eq!(
        s.schedule_game(10, "final".to_string(), 10, 20, 50).unwrap_err(),
        Error::InvalidInput
    );
    assert_eq!(
        s.schedule_game(10, "final".to_string(), 10, 60, 50).unwrap_err(),
        Error::InvalidInput
    );
    assert_eq!(s.get_game(10).unwrap_err(), Error::NotFound);
}

#[test]
fn schedule_game_accepts_future_window() {
    let mut s = BettingStore::new();
    let g = s.schedule_game(10, "final".to_string(), 60, 90, 50).unwrap();
    assert_eq!(g.start_time, 60);
    assert_eq!(g.end_time, 90);
    assert_eq!(s.get_game(10).unwrap().end_time, 90);
    let g2 = s.schedule_game(11, "cup".to_string(), 50, 51, 50).unwrap();
    assert_eq!(g2.start_time, 50);
}
