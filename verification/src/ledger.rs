//! The ledger operations: the only sanctioned mutators of a user's balance.
//! A debit is refused rather than driving a balance below zero, and a credit
//! is refused rather than overflowing, so balances stay inside the `u64`
//! range under every sequence of operations.

use vstd::prelude::*;

use crate::entities::{Error, User};
use crate::store::BettingStore;

verus! {

/// The balances a user map holds, read as unbounded integers.
pub open spec fn balances_of(users: Map<u64, User>) -> Map<u64, int> {
    Map::new(|k: u64| users.contains_key(k), |k: u64| users[k].balance as int)
}

/// One ledger operation, as issued by a caller.
pub enum LedgerOp {
    Credit { user_id: u64, amount: u64 },
    Debit { user_id: u64, amount: u64 },
}

/// The effect of one ledger operation on the balances: a credit adds when the
/// user exists and the sum stays representable, a debit subtracts when the
/// user exists and holds enough; a refused operation changes nothing.
pub open spec fn apply_op(balances: Map<u64, int>, op: LedgerOp) -> Map<u64, int> {
    match op {
        LedgerOp::Credit { user_id, amount } => {
            if balances.contains_key(user_id) && balances[user_id] + amount <= u64::MAX {
                balances.insert(user_id, balances[user_id] + amount)
            } else {
                balances
            }
        },
        LedgerOp::Debit { user_id, amount } => {
            if balances.contains_key(user_id) && amount <= balances[user_id] {
                balances.insert(user_id, balances[user_id] - amount)
            } else {
                balances
            }
        },
    }
}

/// The effect of a sequence of ledger operations, applied in order.
pub open spec fn apply_ops(balances: Map<u64, int>, ops: Seq<LedgerOp>) -> Map<u64, int>
    decreases ops.len(),
{
    if ops.len() == 0 {
        balances
    } else {
        apply_op(apply_ops(balances, ops.drop_last()), ops.last())
    }
}

/// A user's balance never goes negative: under every sequence of debit and
/// credit operations, balances that start inside the `u64` range stay there,
/// and in particular stay at or above zero.
pub proof fn lemma_balance_never_negative(balances: Map<u64, int>, ops: Seq<LedgerOp>)
    requires
        forall|k: u64| #[trigger] balances.contains_key(k) ==> 0 <= balances[k] <= u64::MAX,
    ensures
        forall|k: u64|
            #[trigger] apply_ops(balances, ops).contains_key(k) ==> 0 <= apply_ops(balances, ops)[k]
                <= u64::MAX,
    decreases ops.len(),
{
    if ops.len() > 0 {
        lemma_balance_never_negative(balances, ops.drop_last());
        let m = apply_ops(balances, ops.drop_last());
        let m2 = apply_ops(balances, ops);
        assert(m2 == apply_op(m, ops.last()));
        assert forall|k: u64| #[trigger] m2.contains_key(k) implies 0 <= m2[k] <= u64::MAX by {
            match ops.last() {
                LedgerOp::Credit { user_id, amount } => {
                    assert(m.contains_key(k));
                },
                LedgerOp::Debit { user_id, amount } => {
                    assert(m.contains_key(k));
                },
            }
        }
    }
}

impl BettingStore {
    /// Adds `amount` to the user's balance. Fails with `NotFound` when the
    /// user is absent and with `InvalidInput` when the sum would not fit in a
    /// `u64`; a failed credit leaves the store unchanged. The effect on the
    /// balances is exactly that of the corresponding ledger operation.
    pub fn credit(&mut self, user_id: u64, amount: u64) -> (r: Result<(), Error>)
        requires
            old(self).wf(),
        ensures
            final(self).wf(),
            !old(self).users@.contains_key(user_id) ==> r == Err::<(), Error>(Error::NotFound)
                && *final(self) == *old(self),
            old(self).users@.contains_key(user_id) && old(self).users@[user_id].balance + amount
                > u64::MAX ==> r == Err::<(), Error>(Error::InvalidInput) && *final(self) == *old(
                self,
            ),
            old(self).users@.contains_key(user_id) && old(self).users@[user_id].balance + amount
                <= u64::MAX ==> {
                &&& r == Ok::<(), Error>(())
                &&& ({
                    let u = old(self).users@[user_id];
                    final(self).users@ == old(self).users@.insert(
                        user_id,
                        User { balance: (u.balance + amount) as u64, ..u },
                    )
                })
            },
            final(self).bets == old(self).bets,
            final(self).pools == old(self).pools,
            final(self).games == old(self).games,
            final(self).escrows == old(self).escrows,
            final(self).results == old(self).results,
            balances_of(final(self).users@) == apply_op(
                balances_of(old(self).users@),
                LedgerOp::Credit { user_id, amount },
            ),
    {
        let ghost pre = balances_of(old(self).users@);
        let new_balance = match self.users.get(user_id) {
            Some(u) => match u.balance.checked_add(amount) {
                Some(n) => n,
                None => {
                    proof {
                        assert(balances_of(self.users@) =~= apply_op(
                            pre,
                            LedgerOp::Credit { user_id, amount },
                        ));
                    }
                    return Err(Error::InvalidInput);
                },
            },
            None => {
                proof {
                    assert(balances_of(self.users@) =~= apply_op(
                        pre,
                        LedgerOp::Credit { user_id, amount },
                    ));
                }
                return Err(Error::NotFound);
            },
        };
        let user = match self.users.remove(user_id) {
            Some(u) => u,
            None => {
                return Err(Error::NotFound);
            },
        };
        let updated = User { balance: new_balance, ..user };
        self.users.insert(user_id, updated);
        proof {
            assert(self.users@ =~= old(self).users@.insert(
                user_id,
                User { balance: new_balance, ..old(self).users@[user_id] },
            ));
            assert(balances_of(self.users@) =~= apply_op(
                pre,
                LedgerOp::Credit { user_id, amount },
            ));
        }
        Ok(())
    }

    /// Subtracts `amount` from the user's balance. Fails with `NotFound` when
    /// the user is absent and with `InvalidInput` when `amount` exceeds the
    /// balance; a failed debit leaves the store unchanged. The effect on the
    /// balances is exactly that of the corresponding ledger operation.
    pub fn debit(&mut self, user_id: u64, amount: u64) -> (r: Result<(), Error>)
        requires
            old(self).wf(),
        ensures
            final(self).wf(),
            !old(self).users@.contains_key(user_id) ==> r == Err::<(), Error>(Error::NotFound)
                && *final(self) == *old(self),
            old(self).users@.contains_key(user_id) && amount > old(self).users@[user_id].balance
                ==> r == Err::<(), Error>(Error::InvalidInput) && *final(self) == *old(self),
            old(self).users@.contains_key(user_id) && amount <= old(self).users@[user_id].balance
                ==> {
                &&& r == Ok::<(), Error>(())
                &&& ({
                    let u = old(self).users@[user_id];
                    final(self).users@ == old(self).users@.insert(
                        user_id,
                        User { balance: (u.balance - amount) as u64, ..u },
                    )
                })
            },
            final(self).bets == old(self).bets,
            final(self).pools == old(self).pools,
            final(self).games == old(self).games,
            final(self).escrows == old(self).escrows,
            final(self).results == old(self).results,
            balances_of(final(self).users@) == apply_op(
                balances_of(old(self).users@),
                LedgerOp::Debit { user_id, amount },
            ),
    {
        let ghost pre = balances_of(old(self).users@);
        let new_balance = match self.users.get(user_id) {
            Some(u) => {
                if amount > u.balance {
                    proof {
                        assert(balances_of(self.users@) =~= apply_op(
                            pre,
                            LedgerOp::Debit { user_id, amount },
                        ));
                    }
                    return Err(Error::InvalidInput);
                }
                u.balance - amount
            },
            None => {
                proof {
                    assert(balances_of(self.users@) =~= apply_op(
                        pre,
                        LedgerOp::Debit { user_id, amount },
                    ));
                }
                return Err(Error::NotFound);
            },
        };
        let user = match self.users.remove(user_id) {
            Some(u) => u,
            None => {
                return Err(Error::NotFound);
            },
        };
        let updated = User { balance: new_balance, ..user };
        self.users.insert(user_id, updated);
        proof {
            assert(self.users@ =~= old(self).users@.insert(
                user_id,
                User { balance: new_balance, ..old(self).users@[user_id] },
            ));
            assert(balances_of(self.users@) =~= apply_op(pre, LedgerOp::Debit { user_id, amount }));
        }
        Ok(())
    }
}

} // verus!
