//! The settlement engine: given the recorded result of a game, it scans the
//! escrows tied to that game, credits each bet that predicted the recorded
//! outcome, and retires every escrow it processed. Losing stakes are retired
//! without being credited anywhere.

use vstd::prelude::*;

use crate::entities::{Bet, Error, Escrow, GameOutcome, Results, User};
use crate::store::BettingStore;
use crate::table::has_key;

verus! {

/// The first recorded result whose `game_id` matches, in recording order.
pub open spec fn first_result_for(s: Seq<(u64, Results)>, game_id: u64) -> Option<Results>
    decreases s.len(),
{
    if s.len() == 0 {
        None
    } else if s[0].1.game_id == game_id {
        Some(s[0].1)
    } else {
        first_result_for(s.drop_first(), game_id)
    }
}

/// The escrow entries tied to the game, in store order.
pub open spec fn matching_escrows(s: Seq<(u64, Escrow)>, game_id: u64) -> Seq<(u64, Escrow)>
    decreases s.len(),
{
    if s.len() == 0 {
        Seq::empty()
    } else {
        let rest = matching_escrows(s.drop_last(), game_id);
        if s.last().1.game_id == game_id {
            rest.push(s.last())
        } else {
            rest
        }
    }
}

/// The set of keys the entries carry.
pub open spec fn keys_of(s: Seq<(u64, Escrow)>) -> Set<u64> {
    Set::new(|k: u64| has_key(s, k))
}

/// An entry is listed among a game's matching escrows exactly when it stands
/// in the scanned sequence and is tied to that game.
pub proof fn lemma_matching_escrows_membership(s: Seq<(u64, Escrow)>, game_id: u64)
    ensures
        forall|i: int|
            0 <= i < s.len() && (#[trigger] s[i]).1.game_id == game_id ==> matching_escrows(
                s,
                game_id,
            ).contains(s[i]),
        forall|p: (u64, Escrow)|
            #[trigger] matching_escrows(s, game_id).contains(p) ==> p.1.game_id == game_id
                && s.contains(p),
    decreases s.len(),
{
    if s.len() > 0 {
        lemma_matching_escrows_membership(s.drop_last(), game_id);
        let rest = matching_escrows(s.drop_last(), game_id);
        assert forall|i: int|
            0 <= i < s.len() && (#[trigger] s[i]).1.game_id == game_id implies matching_escrows(
            s,
            game_id,
        ).contains(s[i]) by {
            if i < s.len() - 1 {
                assert(s.drop_last()[i] == s[i]);
                assert(rest.contains(s[i]));
                let j = choose|j: int| 0 <= j < rest.len() && rest[j] == s[i];
                if s.last().1.game_id == game_id {
                    assert(rest.push(s.last())[j] == s[i]);
                }
            } else {
                assert(s[i] == s.last());
                assert(rest.push(s.last()).last() == s.last());
            }
        }
        assert forall|p: (u64, Escrow)|
            #[trigger] matching_escrows(s, game_id).contains(p) implies p.1.game_id == game_id
            && s.contains(p) by {
            let m = matching_escrows(s, game_id);
            let j = choose|j: int| 0 <= j < m.len() && m[j] == p;
            if s.last().1.game_id == game_id && j == m.len() - 1 {
                assert(p == s.last());
                assert(s[s.len() - 1] == p);
            } else {
                assert(rest.contains(p));
                let i = choose|i: int| 0 <= i < s.drop_last().len() && s.drop_last()[i] == p;
                assert(s[i] == p);
            }
        }
    }
}

/// What one settlement pass leaves behind: the users after the credits, how
/// many of the listed escrow entries were retired, and the error that stopped
/// the pass, if one did.
pub struct Settlement {
    pub users: Map<u64, User>,
    pub retired: int,
    pub err: Option<Error>,
}

/// One settlement pass over the listed escrow entries, front to back. An
/// entry whose bet is missing stops the pass with `NotFound` before retiring
/// it; a winning bet whose user is missing, or whose credit would overflow,
/// stops it likewise. Otherwise the entry's user is credited when the bet
/// predicted the outcome, and the entry is retired either way.
pub open spec fn settle(
    users: Map<u64, User>,
    bets: Map<u64, Bet>,
    outcome: GameOutcome,
    list: Seq<(u64, Escrow)>,
) -> Settlement
    decreases list.len(),
{
    if list.len() == 0 {
        Settlement { users, retired: 0, err: None }
    } else {
        let escrow = list[0].1;
        if !bets.contains_key(escrow.bet_id) {
            Settlement { users, retired: 0, err: Some(Error::NotFound) }
        } else {
            let bet = bets[escrow.bet_id];
            if bet.chosen_outcome == outcome {
                if !users.contains_key(bet.user_id) {
                    Settlement { users, retired: 0, err: Some(Error::NotFound) }
                } else if users[bet.user_id].balance + escrow.amount > u64::MAX {
                    Settlement { users, retired: 0, err: Some(Error::InvalidInput) }
                } else {
                    let u = users[bet.user_id];
                    let credited = users.insert(
                        bet.user_id,
                        User { balance: (u.balance + escrow.amount) as u64, ..u },
                    );
                    let rest = settle(credited, bets, outcome, list.drop_first());
                    Settlement { users: rest.users, retired: 1 + rest.retired, err: rest.err }
                }
            } else {
                let rest = settle(users, bets, outcome, list.drop_first());
                Settlement { users: rest.users, retired: 1 + rest.retired, err: rest.err }
            }
        }
    }
}

/// The total escrowed amount the listed entries owe a user: the sum of the
/// amounts whose bet exists, was placed by this user, and predicted the
/// outcome.
pub open spec fn winnings(
    list: Seq<(u64, Escrow)>,
    bets: Map<u64, Bet>,
    outcome: GameOutcome,
    user_id: u64,
) -> int
    decreases list.len(),
{
    if list.len() == 0 {
        0
    } else {
        let escrow = list[0].1;
        let head: int = if bets.contains_key(escrow.bet_id) && bets[escrow.bet_id].user_id
            == user_id && bets[escrow.bet_id].chosen_outcome == outcome {
            escrow.amount as int
        } else {
            0
        };
        head + winnings(list.drop_first(), bets, outcome, user_id)
    }
}

/// When none of the listed entries carries a winning bet of the user, the
/// user is owed nothing.
pub proof fn lemma_winnings_zero(
    list: Seq<(u64, Escrow)>,
    bets: Map<u64, Bet>,
    outcome: GameOutcome,
    user_id: u64,
)
    requires
        forall|i: int|
            0 <= i < list.len() ==> !(bets.contains_key((#[trigger] list[i]).1.bet_id)
                && bets[list[i].1.bet_id].user_id == user_id && bets[list[i].1.bet_id].chosen_outcome
                == outcome),
    ensures
        winnings(list, bets, outcome, user_id) == 0,
    decreases list.len(),
{
    if list.len() > 0 {
        assert forall|i: int| 0 <= i < list.drop_first().len() implies !(bets.contains_key(
            (#[trigger] list.drop_first()[i]).1.bet_id,
        ) && bets[list.drop_first()[i].1.bet_id].user_id == user_id
            && bets[list.drop_first()[i].1.bet_id].chosen_outcome == outcome) by {
            assert(list.drop_first()[i] == list[i + 1]);
        }
        lemma_winnings_zero(list.drop_first(), bets, outcome, user_id);
    }
}

/// A settlement pass that completes credits each user exactly the winnings
/// the listed entries owe them, and touches nothing else of the user record:
/// a user with a winning bet gains exactly the escrowed amount, and a user
/// whose prediction differs from the outcome is left unchanged.
pub proof fn lemma_settle_credits_winners(
    users: Map<u64, User>,
    bets: Map<u64, Bet>,
    outcome: GameOutcome,
    list: Seq<(u64, Escrow)>,
)
    requires
        settle(users, bets, outcome, list).err is None,
    ensures
        settle(users, bets, outcome, list).users.dom() == users.dom(),
        forall|uid: u64|
            #[trigger] users.contains_key(uid) ==> {
                let post = settle(users, bets, outcome, list).users;
                &&& post[uid].balance == users[uid].balance + winnings(list, bets, outcome, uid)
                &&& post[uid].id == users[uid].id
                &&& post[uid].name == users[uid].name
            },
    decreases list.len(),
{
    let out = settle(users, bets, outcome, list);
    if list.len() == 0 {
        assert(out.users.dom() =~= users.dom());
    } else {
        let escrow = list[0].1;
        let bet = bets[escrow.bet_id];
        if bet.chosen_outcome == outcome {
            let u = users[bet.user_id];
            let credited = users.insert(
                bet.user_id,
                User { balance: (u.balance + escrow.amount) as u64, ..u },
            );
            lemma_settle_credits_winners(credited, bets, outcome, list.drop_first());
            assert(credited.dom() =~= users.dom());
            assert(out.users.dom() == users.dom());
            assert forall|uid: u64| #[trigger] users.contains_key(uid) implies {
                let post = settle(users, bets, outcome, list).users;
                &&& post[uid].balance == users[uid].balance + winnings(list, bets, outcome, uid)
                &&& post[uid].id == users[uid].id
                &&& post[uid].name == users[uid].name
            } by {
                assert(credited.contains_key(uid));
            }
        } else {
            lemma_settle_credits_winners(users, bets, outcome, list.drop_first());
        }
    }
}

/// Settling a game a second time is a no-op: once no escrow of the game
/// remains in the store, the scan finds nothing, the pass completes at once,
/// and the users and escrows are left exactly as they were. Together with the
/// settlement contract, which retires every escrow of the game on success,
/// this says that a repeated release neither credits anyone twice nor fails.
pub proof fn lemma_release_funds_idempotent(
    s: BettingStore,
    game_id: u64,
    bets: Map<u64, Bet>,
    outcome: GameOutcome,
)
    requires
        s.wf(),
        forall|k: u64| #[trigger] s.escrows@.contains_key(k) ==> s.escrows@[k].game_id != game_id,
    ensures
        matching_escrows(s.escrows.entries_seq(), game_id) == Seq::<(u64, Escrow)>::empty(),
        settle(s.users@, bets, outcome, matching_escrows(s.escrows.entries_seq(), game_id)) == (
        Settlement { users: s.users@, retired: 0, err: None }),
        s.escrows@.remove_keys(
            keys_of(matching_escrows(s.escrows.entries_seq(), game_id).take(0)),
        ) == s.escrows@,
{
    let eseq = s.escrows.entries_seq();
    let list = matching_escrows(eseq, game_id);
    lemma_matching_escrows_membership(eseq, game_id);
    if list.len() > 0 {
        assert(list.contains(list[0]));
        assert(eseq.contains(list[0]));
        let i = choose|i: int| 0 <= i < eseq.len() && eseq[i] == list[0];
        s.escrows.lemma_entries_view();
        assert(s.escrows@.contains_key(eseq[i].0));
        assert(false);
    }
    assert(list =~= Seq::<(u64, Escrow)>::empty());
    assert(keys_of(list.take(0)) =~= Set::<u64>::empty());
    assert(s.escrows@.remove_keys(keys_of(list.take(0))) =~= s.escrows@);
}

impl BettingStore {
    /// The first result recorded for the game, if any.
    fn find_result(&self, game_id: u64) -> (r: Option<Results>)
        ensures
            r == first_result_for(self.results.entries_seq(), game_id),
    {
        let ghost rseq = self.results.entries_seq();
        let n = self.results.len();
        let mut idx: usize = 0;
        proof {
            assert(rseq.skip(0) =~= rseq);
        }
        while idx < n
            invariant
                idx <= n,
                n == rseq.len(),
                self.results.entries_seq() == rseq,
                first_result_for(rseq, game_id) == first_result_for(
                    rseq.skip(idx as int),
                    game_id,
                ),
            decreases n - idx,
        {
            let (_, res) = self.results.entry_at(idx);
            proof {
                assert(rseq.skip(idx as int)[0] == rseq[idx as int]);
                assert(rseq.skip(idx as int).drop_first() =~= rseq.skip(idx as int + 1));
            }
            if res.game_id == game_id {
                proof {
                    assert(first_result_for(rseq.skip(idx as int), game_id) == Some(
                        rseq[idx as int].1,
                    ));
                }
                return Some(*res);
            }
            idx += 1;
        }
        proof {
            assert(rseq.skip(n as int).len() == 0);
        }
        None
    }

    /// Settles a game: looks the recorded result up by the game's identifier
    /// (the first result recorded for the game is the authoritative one),
    /// scans the escrows tied to the game, credits each winning bet's user
    /// with the escrowed amount, and retires each escrow it processed. A pass
    /// that fails partway leaves the already-processed escrows retired and
    /// the remainder pending, so a later call can safely resume. Once every
    /// escrow of the game is retired, a further call changes nothing.
    pub fn release_funds(&mut self, game_id: u64) -> (r: Result<(), Error>)
        requires
            old(self).wf(),
        ensures
            final(self).wf(),
            ({
                let found = first_result_for(old(self).results.entries_seq(), game_id);
                match found {
                    None => r == Err::<(), Error>(Error::NotFound) && *final(self) == *old(self),
                    Some(res) => {
                        let list = matching_escrows(old(self).escrows.entries_seq(), game_id);
                        let out = settle(old(self).users@, old(self).bets@, res.outcome, list);
                        &&& final(self).users@ == out.users
                        &&& final(self).escrows@ == old(self).escrows@.remove_keys(
                            keys_of(list.take(out.retired)),
                        )
                        &&& r == match out.err {
                            None => Ok::<(), Error>(()),
                            Some(e) => Err::<(), Error>(e),
                        }
                        &&& final(self).bets == old(self).bets
                        &&& final(self).pools == old(self).pools
                        &&& final(self).games == old(self).games
                        &&& final(self).results == old(self).results
                    },
                }
            }),
            r is Ok ==> forall|k: u64|
                #[trigger] final(self).escrows@.contains_key(k) ==> final(self).escrows@[k].game_id
                    != game_id,
    {
        let result_record = match self.find_result(game_id) {
            Some(res) => res,
            None => {
                return Err(Error::NotFound);
            },
        };
        let outcome = result_record.outcome;

        let ghost eseq = self.escrows.entries_seq();
        let mut matching: Vec<(u64, Escrow)> = Vec::new();
        let n2 = self.escrows.len();
        let mut i: usize = 0;
        while i < n2
            invariant
                i <= n2,
                n2 == eseq.len(),
                self.escrows.entries_seq() == eseq,
                *self == *old(self),
                matching@ == matching_escrows(eseq.take(i as int), game_id),
            decreases n2 - i,
        {
            let (k, e) = self.escrows.entry_at(i);
            let entry = (k, *e);
            proof {
                assert(eseq.take(i as int + 1).drop_last() =~= eseq.take(i as int));
                assert(eseq.take(i as int + 1).last() == eseq[i as int]);
            }
            if entry.1.game_id == game_id {
                matching.push(entry);
            }
            i += 1;
        }
        proof {
            assert(eseq.take(n2 as int) =~= eseq);
        }

        let ghost users0 = self.users@;
        let ghost bets0 = self.bets@;
        let ghost escrows0 = self.escrows@;
        let ghost list = matching@;
        let ghost total = settle(users0, bets0, outcome, list);

        let m = matching.len();
        let mut j: usize = 0;
        proof {
            assert(list.skip(0) =~= list);
            assert(keys_of(list.take(0)) =~= Set::<u64>::empty());
            assert(escrows0.remove_keys(keys_of(list.take(0))) =~= escrows0);
        }
        while j < m
            invariant
                j <= m,
                m == list.len(),
                matching@ == list,
                first_result_for(old(self).results.entries_seq(), game_id) == Some(result_record),
                outcome == result_record.outcome,
                users0 == old(self).users@,
                bets0 == old(self).bets@,
                escrows0 == old(self).escrows@,
                eseq == old(self).escrows.entries_seq(),
                list == matching_escrows(eseq, game_id),
                self.wf(),
                self.bets@ == bets0,
                self.bets == old(self).bets,
                self.pools == old(self).pools,
                self.games == old(self).games,
                self.results == old(self).results,
                total == settle(users0, bets0, outcome, list),
                self.escrows@ == escrows0.remove_keys(keys_of(list.take(j as int))),
                ({
                    let cur = settle(self.users@, bets0, outcome, list.skip(j as int));
                    &&& total.users == cur.users
                    &&& total.err == cur.err
                    &&& total.retired == j + cur.retired
                }),
            decreases m - j,
        {
            let (key, escrow) = matching[j];
            proof {
                assert(list.skip(j as int)[0] == list[j as int]);
                assert(list.skip(j as int).drop_first() =~= list.skip(j as int + 1));
            }
            let bet = match self.bets.get(escrow.bet_id) {
                Some(b) => *b,
                None => {
                    return Err(Error::NotFound);
                },
            };
            if bet.chosen_outcome == outcome {
                match self.credit(bet.user_id, escrow.amount) {
                    Ok(()) => {},
                    Err(e) => {
                        return Err(e);
                    },
                }
            }
            self.escrows.remove(key);
            proof {
                assert(list.take(j as int + 1).drop_last() =~= list.take(j as int));
                assert(list.take(j as int + 1).last() == list[j as int]);
                assert(keys_of(list.take(j as int + 1)) =~= keys_of(list.take(j as int)).insert(
                    key,
                ));
                assert(escrows0.remove_keys(keys_of(list.take(j as int))).remove(key)
                    =~= escrows0.remove_keys(keys_of(list.take(j as int + 1))));
            }
            j += 1;
        }
        proof {
            assert(list.skip(m as int).len() == 0);
            assert(list.take(m as int) =~= list);
            assert(total.retired == m);
            assert forall|k: u64| #[trigger] self.escrows@.contains_key(k) implies self.escrows@[k].game_id
                != game_id by {
                if old(self).escrows@[k].game_id == game_id {
                    old(self).escrows.lemma_entries_view();
                    let i0 = choose|i0: int|
                        0 <= i0 < eseq.len() && #[trigger] eseq[i0] == (k, old(self).escrows@[k]);
                    lemma_matching_escrows_membership(eseq, game_id);
                    assert(matching_escrows(eseq, game_id).contains(eseq[i0]));
                    let j0 = choose|j0: int| 0 <= j0 < list.len() && list[j0] == eseq[i0];
                    assert(has_key(list, k));
                    assert(keys_of(list).contains(k));
                }
            }
        }
        Ok(())
    }
}

} // verus!
