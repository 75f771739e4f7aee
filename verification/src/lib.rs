//! A wagering ledger and escrow-settlement engine.
//!
//! Users hold balances, games open betting windows, and bets stake funds on a
//! predicted outcome. Placing a bet debits the stake into an escrow record;
//! once a result is recorded for the game, settlement credits the winners and
//! retires every escrow tied to that game.
//!
//! The store is an explicit object passed to every operation; durable
//! persistence, transport encoding, the clock and the unique-id source are the
//! caller's concern and enter only as plain values.

pub mod entities;
pub mod ledger;
pub mod settlement;
pub mod store;
pub mod table;
pub mod wager;
