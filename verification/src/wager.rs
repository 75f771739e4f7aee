//! The wager workflow: validating a new bet against the user's funds and the
//! game's betting window, debiting the stake, and recording the bet together
//! with its escrow.

use vstd::prelude::*;

use crate::entities::{Bet, Error, Escrow, Game, GameOutcome, User};
use crate::store::BettingStore;

verus! {

/// Whether a bet is admissible: the user and the game exist, the time is
/// strictly before the game's end, and the stake fits the user's balance.
pub open spec fn bet_allowed(
    users: Map<u64, User>,
    games: Map<u64, Game>,
    user_id: u64,
    amount: u64,
    game_id: u64,
    now: u64,
) -> bool {
    &&& users.contains_key(user_id)
    &&& games.contains_key(game_id)
    &&& now < games[game_id].end_time
    &&& amount <= users[user_id].balance
}

impl BettingStore {
    /// Validates and records a new bet placed at time `now` under the fresh
    /// identifier `bet_id`, supplied by the caller's unique-id source. The
    /// stake is debited from the user, the bet is recorded, and a matching
    /// escrow is recorded under the bet's identifier, so one generated
    /// identifier covers the pair. A bet is accepted strictly before the
    /// game's `end_time` and rejected at or after it; a rejected bet leaves
    /// the store unchanged.
    pub fn place_bet(
        &mut self,
        user_id: u64,
        amount: u64,
        game_id: u64,
        chosen_outcome: GameOutcome,
        bet_id: u64,
        now: u64,
    ) -> (r: Result<Bet, Error>)
        requires
            old(self).wf(),
        ensures
            final(self).wf(),
            r is Ok <==> bet_allowed(
                old(self).users@,
                old(self).games@,
                user_id,
                amount,
                game_id,
                now,
            ),
            r is Err ==> *final(self) == *old(self),
            !old(self).users@.contains_key(user_id) ==> r == Err::<Bet, Error>(Error::NotFound),
            old(self).users@.contains_key(user_id) && !old(self).games@.contains_key(game_id) ==> r
                == Err::<Bet, Error>(Error::NotFound),
            old(self).users@.contains_key(user_id) && old(self).games@.contains_key(game_id) && (
            now >= old(self).games@[game_id].end_time || amount
                > old(self).users@[user_id].balance) ==> r == Err::<Bet, Error>(Error::InvalidInput),
            bet_allowed(old(self).users@, old(self).games@, user_id, amount, game_id, now) ==> {
                let u = old(self).users@[user_id];
                let bet = Bet { id: bet_id, user_id, amount, game_id, chosen_outcome, timestamp: now };
                &&& final(self).users@ == old(self).users@.insert(
                    user_id,
                    User { balance: (u.balance - amount) as u64, ..u },
                )
                &&& final(self).bets@ == old(self).bets@.insert(bet_id, bet)
                &&& final(self).escrows@ == old(self).escrows@.insert(
                    bet_id,
                    Escrow { id: bet_id, game_id, amount, bet_id },
                )
                &&& final(self).pools == old(self).pools
                &&& final(self).games == old(self).games
                &&& final(self).results == old(self).results
                &&& r == Ok::<Bet, Error>(bet)
            },
    {
        let user_balance = match self.users.get(user_id) {
            Some(u) => u.balance,
            None => {
                return Err(Error::NotFound);
            },
        };
        let end_time = match self.games.get(game_id) {
            Some(g) => g.end_time,
            None => {
                return Err(Error::NotFound);
            },
        };
        if now >= end_time {
            return Err(Error::InvalidInput);
        }
        if amount > user_balance {
            return Err(Error::InvalidInput);
        }
        match self.debit(user_id, amount) {
            Ok(()) => {},
            Err(e) => {
                return Err(e);
            },
        }
        let bet = Bet { id: bet_id, user_id, amount, game_id, chosen_outcome, timestamp: now };
        self.bets.insert(bet_id, bet);
        let escrow = Escrow { id: bet_id, game_id, amount, bet_id };
        self.escrows.insert(bet_id, escrow);
        Ok(bet)
    }
}

} // verus!
