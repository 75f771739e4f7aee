//! The records the ledger keeps: users, games, bets, pools, escrows and
//! recorded results, together with the outcome tag and the error kinds every
//! fallible operation surfaces.

use vstd::prelude::*;

verus! {

/// The closed set of outcomes a game can end with, and that a bet predicts.
#[derive(Clone, Copy, PartialEq, Eq, Structural, Debug)]
pub enum GameOutcome {
    Win,
    Loss,
    Draw,
}

/// The two failure kinds: a referenced record is absent, or an input breaks a
/// semantic rule (insufficient balance, an invalid or closed betting window).
#[derive(Clone, Copy, PartialEq, Eq, Structural, Debug)]
pub enum Error {
    NotFound,
    InvalidInput,
}

/// A registered participant. The balance is mutated only by the ledger
/// operations, which keep it inside the `u64` range.
#[derive(Debug)]
pub struct User {
    pub id: u64,
    pub name: String,
    pub balance: u64,
}

impl Clone for User {
    fn clone(&self) -> (r: Self)
        ensures
            r == *self,
    {
        User { id: self.id, name: self.name.clone(), balance: self.balance }
    }
}

/// A scheduled game with its betting window.
#[derive(Debug)]
pub struct Game {
    pub id: u64,
    pub name: String,
    pub start_time: u64,
    pub end_time: u64,
}

impl Clone for Game {
    fn clone(&self) -> (r: Self)
        ensures
            r == *self,
    {
        Game {
            id: self.id,
            name: self.name.clone(),
            start_time: self.start_time,
            end_time: self.end_time,
        }
    }
}

/// A stake placed by a user on one game's outcome. Bets persist as audit
/// records after settlement.
#[derive(Clone, Copy, PartialEq, Eq, Structural, Debug)]
pub struct Bet {
    pub id: u64,
    pub user_id: u64,
    pub amount: u64,
    pub game_id: u64,
    pub chosen_outcome: GameOutcome,
    pub timestamp: u64,
}

/// An informational aggregate of stakes for one game.
#[derive(Clone, Copy, PartialEq, Eq, Structural, Debug)]
pub struct Pool {
    pub id: u64,
    pub game_id: u64,
    pub total_amount: u64,
}

/// A retained stake tied to one bet, held until its game's result is settled.
#[derive(Clone, Copy, PartialEq, Eq, Structural, Debug)]
pub struct Escrow {
    pub id: u64,
    pub game_id: u64,
    pub amount: u64,
    pub bet_id: u64,
}

/// A recorded result for a game.
#[derive(Clone, Copy, PartialEq, Eq, Structural, Debug)]
pub struct Results {
    pub id: u64,
    pub game_id: u64,
    pub outcome: GameOutcome,
    pub timestamp: u64,
}

} // verus!
