//! The entity store: six independent tables, one per record kind, each keyed
//! by a 64-bit identifier, together with the flat record operations layered on
//! them. The store is constructed once and passed to every operation.

use vstd::prelude::*;

use crate::entities::{Bet, Error, Escrow, Game, GameOutcome, Pool, Results, User};
use crate::table::Table;

verus! {

/// The process-wide state: one table per entity kind.
pub struct BettingStore {
    pub users: Table<User>,
    pub bets: Table<Bet>,
    pub pools: Table<Pool>,
    pub games: Table<Game>,
    pub escrows: Table<Escrow>,
    pub results: Table<Results>,
}

impl BettingStore {
    /// Every table keeps its keys unique.
    pub open spec fn wf(&self) -> bool {
        &&& self.users.wf()
        &&& self.bets.wf()
        &&& self.pools.wf()
        &&& self.games.wf()
        &&& self.escrows.wf()
        &&& self.results.wf()
    }

    /// An empty store.
    pub fn new() -> (s: Self)
        ensures
            s.wf(),
            s.users@ == Map::<u64, User>::empty(),
            s.bets@ == Map::<u64, Bet>::empty(),
            s.pools@ == Map::<u64, Pool>::empty(),
            s.games@ == Map::<u64, Game>::empty(),
            s.escrows@ == Map::<u64, Escrow>::empty(),
            s.results@ == Map::<u64, Results>::empty(),
    {
        BettingStore {
            users: Table::new(),
            bets: Table::new(),
            pools: Table::new(),
            games: Table::new(),
            escrows: Table::new(),
            results: Table::new(),
        }
    }

    /// Registers a user, overwriting any record already stored under `id`.
    pub fn add_user(&mut self, id: u64, name: String, balance: u64) -> (r: Result<User, Error>)
        requires
            old(self).wf(),
        ensures
            final(self).wf(),
            final(self).users@ == old(self).users@.insert(id, User { id, name, balance }),
            final(self).bets == old(self).bets,
            final(self).pools == old(self).pools,
            final(self).games == old(self).games,
            final(self).escrows == old(self).escrows,
            final(self).results == old(self).results,
            r == Ok::<User, Error>(User { id, name, balance }),
    {
        let user = User { id, name, balance };
        let returned = user.clone();
        self.users.insert(id, user);
        Ok(returned)
    }

    /// Looks a user up; `NotFound` when no record is stored under `id`.
    pub fn get_user(&self, id: u64) -> (r: Result<User, Error>)
        requires
            self.wf(),
        ensures
            match r {
                Ok(u) => self.users@.contains_key(id) && u == self.users@[id],
                Err(e) => !self.users@.contains_key(id) && e == Error::NotFound,
            },
    {
        match self.users.get(id) {
            Some(u) => Ok(u.clone()),
            None => Err(Error::NotFound),
        }
    }

    /// Stores the given user record under `id` unconditionally, and reports
    /// `NotFound` when nothing was stored there before (the record is written
    /// even then).
    pub fn update_user(&mut self, id: u64, name: String, balance: u64) -> (r: Result<User, Error>)
        requires
            old(self).wf(),
        ensures
            final(self).wf(),
            final(self).users@ == old(self).users@.insert(id, User { id, name, balance }),
            final(self).bets == old(self).bets,
            final(self).pools == old(self).pools,
            final(self).games == old(self).games,
            final(self).escrows == old(self).escrows,
            final(self).results == old(self).results,
            r == if old(self).users@.contains_key(id) {
                Ok::<User, Error>(User { id, name, balance })
            } else {
                Err::<User, Error>(Error::NotFound)
            },
    {
        let user = User { id, name, balance };
        let returned = user.clone();
        match self.users.insert(id, user) {
            Some(_) => Ok(returned),
            None => Err(Error::NotFound),
        }
    }

    /// Deletes the user stored under `id`; `NotFound` when there is none.
    pub fn delete_user(&mut self, id: u64) -> (r: Result<(), Error>)
        requires
            old(self).wf(),
        ensures
            final(self).wf(),
            final(self).users@ == old(self).users@.remove(id),
            final(self).bets == old(self).bets,
            final(self).pools == old(self).pools,
            final(self).games == old(self).games,
            final(self).escrows == old(self).escrows,
            final(self).results == old(self).results,
            r == if old(self).users@.contains_key(id) {
                Ok::<(), Error>(())
            } else {
                Err::<(), Error>(Error::NotFound)
            },
    {
        match self.users.remove(id) {
            Some(_) => Ok(()),
            None => Err(Error::NotFound),
        }
    }

    /// Records a pool, overwriting any record already stored under `id`.
    pub fn create_pool(&mut self, id: u64, game_id: u64, total_amount: u64) -> (r: Result<
        Pool,
        Error,
    >)
        requires
            old(self).wf(),
        ensures
            final(self).wf(),
            final(self).pools@ == old(self).pools@.insert(id, Pool { id, game_id, total_amount }),
            final(self).users == old(self).users,
            final(self).bets == old(self).bets,
            final(self).games == old(self).games,
            final(self).escrows == old(self).escrows,
            final(self).results == old(self).results,
            r == Ok::<Pool, Error>(Pool { id, game_id, total_amount }),
    {
        let pool = Pool { id, game_id, total_amount };
        self.pools.insert(id, pool);
        Ok(pool)
    }

    /// Looks a pool up; `NotFound` when no record is stored under `id`.
    pub fn get_pool(&self, id: u64) -> (r: Result<Pool, Error>)
        requires
            self.wf(),
        ensures
            match r {
                Ok(p) => self.pools@.contains_key(id) && p == self.pools@[id],
                Err(e) => !self.pools@.contains_key(id) && e == Error::NotFound,
            },
    {
        match self.pools.get(id) {
            Some(p) => Ok(*p),
            None => Err(Error::NotFound),
        }
    }

    /// Stores the given pool record under `id` unconditionally, and reports
    /// `NotFound` when nothing was stored there before.
    pub fn update_pool(&mut self, id: u64, game_id: u64, total_amount: u64) -> (r: Result<
        Pool,
        Error,
    >)
        requires
            old(self).wf(),
        ensures
            final(self).wf(),
            final(self).pools@ == old(self).pools@.insert(id, Pool { id, game_id, total_amount }),
            final(self).users == old(self).users,
            final(self).bets == old(self).bets,
            final(self).games == old(self).games,
            final(self).escrows == old(self).escrows,
            final(self).results == old(self).results,
            r == if old(self).pools@.contains_key(id) {
                Ok::<Pool, Error>(Pool { id, game_id, total_amount })
            } else {
                Err::<Pool, Error>(Error::NotFound)
            },
    {
        let pool = Pool { id, game_id, total_amount };
        match self.pools.insert(id, pool) {
            Some(_) => Ok(pool),
            None => Err(Error::NotFound),
        }
    }

    /// Deletes the pool stored under `id`; `NotFound` when there is none.
    pub fn delete_pool(&mut self, id: u64) -> (r: Result<(), Error>)
        requires
            old(self).wf(),
        ensures
            final(self).wf(),
            final(self).pools@ == old(self).pools@.remove(id),
            final(self).users == old(self).users,
            final(self).bets == old(self).bets,
            final(self).games == old(self).games,
            final(self).escrows == old(self).escrows,
            final(self).results == old(self).results,
            r == if old(self).pools@.contains_key(id) {
                Ok::<(), Error>(())
            } else {
                Err::<(), Error>(Error::NotFound)
            },
    {
        match self.pools.remove(id) {
            Some(_) => Ok(()),
            None => Err(Error::NotFound),
        }
    }

    /// Records a game without validating its window, overwriting any record
    /// already stored under `id`.
    pub fn add_game(&mut self, id: u64, name: String, start_time: u64, end_time: u64) -> (r: Result<
        Game,
        Error,
    >)
        requires
            old(self).wf(),
        ensures
            final(self).wf(),
            final(self).games@ == old(self).games@.insert(
                id,
                Game { id, name, start_time, end_time },
            ),
            final(self).users == old(self).users,
            final(self).bets == old(self).bets,
            final(self).pools == old(self).pools,
            final(self).escrows == old(self).escrows,
            final(self).results == old(self).results,
            r == Ok::<Game, Error>(Game { id, name, start_time, end_time }),
    {
        let game = Game { id, name, start_time, end_time };
        let returned = game.clone();
        self.games.insert(id, game);
        Ok(returned)
    }

    /// Records a game after validating its betting window against the current
    /// time `now`: the window must not have begun or elapsed already, and must
    /// end strictly after it starts. Rejected windows leave the store
    /// unchanged.
    pub fn schedule_game(
        &mut self,
        id: u64,
        name: String,
        start_time: u64,
        end_time: u64,
        now: u64,
    ) -> (r: Result<Game, Error>)
        requires
            old(self).wf(),
        ensures
            final(self).wf(),
            start_time < now || end_time < now || end_time <= start_time ==> r == Err::<
                Game,
                Error,
            >(Error::InvalidInput) && *final(self) == *old(self),
            start_time >= now && end_time >= now && end_time > start_time ==> {
                &&& final(self).games@ == old(self).games@.insert(
                    id,
                    Game { id, name, start_time, end_time },
                )
                &&& final(self).users == old(self).users
                &&& final(self).bets == old(self).bets
                &&& final(self).pools == old(self).pools
                &&& final(self).escrows == old(self).escrows
                &&& final(self).results == old(self).results
                &&& r == Ok::<Game, Error>(Game { id, name, start_time, end_time })
            },
    {
        if start_time < now || end_time < now || end_time <= start_time {
            return Err(Error::InvalidInput);
        }
        let game = Game { id, name, start_time, end_time };
        let returned = game.clone();
        self.games.insert(id, game);
        Ok(returned)
    }

    /// Looks a game up; `NotFound` when no record is stored under `id`.
    pub fn get_game(&self, id: u64) -> (r: Result<Game, Error>)
        requires
            self.wf(),
        ensures
            match r {
                Ok(g) => self.games@.contains_key(id) && g == self.games@[id],
                Err(e) => !self.games@.contains_key(id) && e == Error::NotFound,
            },
    {
        match self.games.get(id) {
            Some(g) => Ok(g.clone()),
            None => Err(Error::NotFound),
        }
    }

    /// Stores the given game record under `id` unconditionally, and reports
    /// `NotFound` when nothing was stored there before.
    pub fn update_game(
        &mut self,
        id: u64,
        name: String,
        start_time: u64,
        end_time: u64,
    ) -> (r: Result<Game, Error>)
        requires
            old(self).wf(),
        ensures
            final(self).wf(),
            final(self).games@ == old(self).games@.insert(
                id,
                Game { id, name, start_time, end_time },
            ),
            final(self).users == old(self).users,
            final(self).bets == old(self).bets,
            final(self).pools == old(self).pools,
            final(self).escrows == old(self).escrows,
            final(self).results == old(self).results,
            r == if old(self).games@.contains_key(id) {
                Ok::<Game, Error>(Game { id, name, start_time, end_time })
            } else {
                Err::<Game, Error>(Error::NotFound)
            },
    {
        let game = Game { id, name, start_time, end_time };
        let returned = game.clone();
        match self.games.insert(id, game) {
            Some(_) => Ok(returned),
            None => Err(Error::NotFound),
        }
    }

    /// Deletes the game stored under `id`; `NotFound` when there is none.
    pub fn delete_game(&mut self, id: u64) -> (r: Result<(), Error>)
        requires
            old(self).wf(),
        ensures
            final(self).wf(),
            final(self).games@ == old(self).games@.remove(id),
            final(self).users == old(self).users,
            final(self).bets == old(self).bets,
            final(self).pools == old(self).pools,
            final(self).escrows == old(self).escrows,
            final(self).results == old(self).results,
            r == if old(self).games@.contains_key(id) {
                Ok::<(), Error>(())
            } else {
                Err::<(), Error>(Error::NotFound)
            },
    {
        match self.games.remove(id) {
            Some(_) => Ok(()),
            None => Err(Error::NotFound),
        }
    }

    /// Records a bet, overwriting any record already stored under `id`.
    pub fn add_bet(
        &mut self,
        id: u64,
        user_id: u64,
        amount: u64,
        game_id: u64,
        chosen_outcome: GameOutcome,
        timestamp: u64,
    ) -> (r: Result<Bet, Error>)
        requires
            old(self).wf(),
        ensures
            final(self).wf(),
            final(self).bets@ == old(self).bets@.insert(
                id,
                Bet { id, user_id, amount, game_id, chosen_outcome, timestamp },
            ),
            final(self).users == old(self).users,
            final(self).pools == old(self).pools,
            final(self).games == old(self).games,
            final(self).escrows == old(self).escrows,
            final(self).results == old(self).results,
            r == Ok::<Bet, Error>(Bet { id, user_id, amount, game_id, chosen_outcome, timestamp }),
    {
        let bet = Bet { id, user_id, amount, game_id, chosen_outcome, timestamp };
        self.bets.insert(id, bet);
        Ok(bet)
    }

    /// Looks a bet up; `NotFound` when no record is stored under `id`.
    pub fn get_bet(&self, id: u64) -> (r: Result<Bet, Error>)
        requires
            self.wf(),
        ensures
            match r {
                Ok(b) => self.bets@.contains_key(id) && b == self.bets@[id],
                Err(e) => !self.bets@.contains_key(id) && e == Error::NotFound,
            },
    {
        match self.bets.get(id) {
            Some(b) => Ok(*b),
            None => Err(Error::NotFound),
        }
    }

    /// Stores the given bet record under `id` unconditionally, and reports
    /// `NotFound` when nothing was stored there before.
    pub fn update_bet(
        &mut self,
        id: u64,
        user_id: u64,
        amount: u64,
        game_id: u64,
        chosen_outcome: GameOutcome,
        timestamp: u64,
    ) -> (r: Result<Bet, Error>)
        requires
            old(self).wf(),
        ensures
            final(self).wf(),
            final(self).bets@ == old(self).bets@.insert(
                id,
                Bet { id, user_id, amount, game_id, chosen_outcome, timestamp },
            ),
            final(self).users == old(self).users,
            final(self).pools == old(self).pools,
            final(self).games == old(self).games,
            final(self).escrows == old(self).escrows,
            final(self).results == old(self).results,
            r == if old(self).bets@.contains_key(id) {
                Ok::<Bet, Error>(Bet { id, user_id, amount, game_id, chosen_outcome, timestamp })
            } else {
                Err::<Bet, Error>(Error::NotFound)
            },
    {
        let bet = Bet { id, user_id, amount, game_id, chosen_outcome, timestamp };
        match self.bets.insert(id, bet) {
            Some(_) => Ok(bet),
            None => Err(Error::NotFound),
        }
    }

    /// Deletes the bet stored under `id`; `NotFound` when there is none.
    pub fn delete_bet(&mut self, id: u64) -> (r: Result<(), Error>)
        requires
            old(self).wf(),
        ensures
            final(self).wf(),
            final(self).bets@ == old(self).bets@.remove(id),
            final(self).users == old(self).users,
            final(self).pools == old(self).pools,
            final(self).games == old(self).games,
            final(self).escrows == old(self).escrows,
            final(self).results == old(self).results,
            r == if old(self).bets@.contains_key(id) {
                Ok::<(), Error>(())
            } else {
                Err::<(), Error>(Error::NotFound)
            },
    {
        match self.bets.remove(id) {
            Some(_) => Ok(()),
            None => Err(Error::NotFound),
        }
    }

    /// Records an escrow, overwriting any record already stored under `id`.
    pub fn create_escrow(&mut self, id: u64, game_id: u64, amount: u64, bet_id: u64) -> (r: Result<
        Escrow,
        Error,
    >)
        requires
            old(self).wf(),
        ensures
            final(self).wf(),
            final(self).escrows@ == old(self).escrows@.insert(
                id,
                Escrow { id, game_id, amount, bet_id },
            ),
            final(self).users == old(self).users,
            final(self).bets == old(self).bets,
            final(self).pools == old(self).pools,
            final(self).games == old(self).games,
            final(self).results == old(self).results,
            r == Ok::<Escrow, Error>(Escrow { id, game_id, amount, bet_id }),
    {
        let escrow = Escrow { id, game_id, amount, bet_id };
        self.escrows.insert(id, escrow);
        Ok(escrow)
    }

    /// Looks an escrow up; `NotFound` when no record is stored under `id`.
    pub fn get_escrow(&self, id: u64) -> (r: Result<Escrow, Error>)
        requires
            self.wf(),
        ensures
            match r {
                Ok(e) => self.escrows@.contains_key(id) && e == self.escrows@[id],
                Err(e) => !self.escrows@.contains_key(id) && e == Error::NotFound,
            },
    {
        match self.escrows.get(id) {
            Some(e) => Ok(*e),
            None => Err(Error::NotFound),
        }
    }

    /// Stores the given escrow record under `id` unconditionally, and reports
    /// `NotFound` when nothing was stored there before.
    pub fn update_escrow(&mut self, id: u64, game_id: u64, amount: u64, bet_id: u64) -> (r: Result<
        Escrow,
        Error,
    >)
        requires
            old(self).wf(),
        ensures
            final(self).wf(),
            final(self).escrows@ == old(self).escrows@.insert(
                id,
                Escrow { id, game_id, amount, bet_id },
            ),
            final(self).users == old(self).users,
            final(self).bets == old(self).bets,
            final(self).pools == old(self).pools,
            final(self).games == old(self).games,
            final(self).results == old(self).results,
            r == if old(self).escrows@.contains_key(id) {
                Ok::<Escrow, Error>(Escrow { id, game_id, amount, bet_id })
            } else {
                Err::<Escrow, Error>(Error::NotFound)
            },
    {
        let escrow = Escrow { id, game_id, amount, bet_id };
        match self.escrows.insert(id, escrow) {
            Some(_) => Ok(escrow),
            None => Err(Error::NotFound),
        }
    }

    /// Deletes the escrow stored under `id`; `NotFound` when there is none.
    pub fn delete_escrow(&mut self, id: u64) -> (r: Result<(), Error>)
        requires
            old(self).wf(),
        ensures
            final(self).wf(),
            final(self).escrows@ == old(self).escrows@.remove(id),
            final(self).users == old(self).users,
            final(self).bets == old(self).bets,
            final(self).pools == old(self).pools,
            final(self).games == old(self).games,
            final(self).results == old(self).results,
            r == if old(self).escrows@.contains_key(id) {
                Ok::<(), Error>(())
            } else {
                Err::<(), Error>(Error::NotFound)
            },
    {
        match self.escrows.remove(id) {
            Some(_) => Ok(()),
            None => Err(Error::NotFound),
        }
    }

    /// Records a result, overwriting any record already stored under `id`.
    pub fn add_results(
        &mut self,
        id: u64,
        game_id: u64,
        outcome: GameOutcome,
        timestamp: u64,
    ) -> (r: Result<Results, Error>)
        requires
            old(self).wf(),
        ensures
            final(self).wf(),
            final(self).results@ == old(self).results@.insert(
                id,
                Results { id, game_id, outcome, timestamp },
            ),
            final(self).users == old(self).users,
            final(self).bets == old(self).bets,
            final(self).pools == old(self).pools,
            final(self).games == old(self).games,
            final(self).escrows == old(self).escrows,
            r == Ok::<Results, Error>(Results { id, game_id, outcome, timestamp }),
    {
        let results = Results { id, game_id, outcome, timestamp };
        self.results.insert(id, results);
        Ok(results)
    }

    /// Looks a result up by its own identifier; `NotFound` when no record is
    /// stored under `id`.
    pub fn get_results(&self, id: u64) -> (r: Result<Results, Error>)
        requires
            self.wf(),
        ensures
            match r {
                Ok(res) => self.results@.contains_key(id) && res == self.results@[id],
                Err(e) => !self.results@.contains_key(id) && e == Error::NotFound,
            },
    {
        match self.results.get(id) {
            Some(res) => Ok(*res),
            None => Err(Error::NotFound),
        }
    }

    /// Stores the given result record under `id` unconditionally, and reports
    /// `NotFound` when nothing was stored there before.
    pub fn update_results(
        &mut self,
        id: u64,
        game_id: u64,
        outcome: GameOutcome,
        timestamp: u64,
    ) -> (r: Result<Results, Error>)
        requires
            old(self).wf(),
        ensures
            final(self).wf(),
            final(self).results@ == old(self).results@.insert(
                id,
                Results { id, game_id, outcome, timestamp },
            ),
            final(self).users == old(self).users,
            final(self).bets == old(self).bets,
            final(self).pools == old(self).pools,
            final(self).games == old(self).games,
            final(self).escrows == old(self).escrows,
            r == if old(self).results@.contains_key(id) {
                Ok::<Results, Error>(Results { id, game_id, outcome, timestamp })
            } else {
                Err::<Results, Error>(Error::NotFound)
            },
    {
        let results = Results { id, game_id, outcome, timestamp };
        match self.results.insert(id, results) {
            Some(_) => Ok(results),
            None => Err(Error::NotFound),
        }
    }

    /// Deletes the result stored under `id`; `NotFound` when there is none.
    pub fn delete_results(&mut self, id: u64) -> (r: Result<(), Error>)
        requires
            old(self).wf(),
        ensures
            final(self).wf(),
            final(self).results@ == old(self).results@.remove(id),
            final(self).users == old(self).users,
            final(self).bets == old(self).bets,
            final(self).pools == old(self).pools,
            final(self).games == old(self).games,
            final(self).escrows == old(self).escrows,
            r == if old(self).results@.contains_key(id) {
                Ok::<(), Error>(())
            } else {
                Err::<(), Error>(Error::NotFound)
            },
    {
        match self.results.remove(id) {
            Some(_) => Ok(()),
            None => Err(Error::NotFound),
        }
    }
}

} // verus!
