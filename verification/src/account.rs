use vstd::prelude::*;

use crate::transaction::Transaction;

verus! {

/// One client account. Balances are fixed-point values scaled by
/// [`crate::AMOUNT_SCALE`]; `available` can go negative through a dispute
/// (a charge can be contested after the funds were spent), so both balances
/// are signed.
#[derive(Debug, Clone, Copy, PartialEq, Eq, Structural)]
pub struct Client {
    pub id: u16,
    pub available: i128,
    pub held: i128,
    pub locked: bool,
}

/// How one record changes one account: the pure transition behind
/// [`Client::apply_transaction`]. Returns the account after the record and
/// whether the record was accepted; a rejected record leaves the account
/// unchanged.
///
/// `amount` is the monetary value relevant to the transition: for a primary
/// record its own amount, for a reference record the amount of the primary
/// record it refers to. A locked account accepts nothing. A withdrawal is
/// accepted exactly when the available balance covers it; a deposit, dispute,
/// resolve or chargeback is accepted whenever the new balances stay
/// representable. The two disputed storage forms are storage state, not
/// applicable actions, and are always rejected.
pub open spec fn client_step(c: Client, t: Transaction, amount: u64) -> (Client, bool) {
    if c.locked {
        (c, false)
    } else {
        match t {
            Transaction::Deposit { .. } => {
                if c.available + amount <= i128::MAX {
                    (Client { available: (c.available + amount) as i128, ..c }, true)
                } else {
                    (c, false)
                }
            },
            Transaction::Withdrawal { .. } => {
                if c.available >= amount {
                    (Client { available: (c.available - amount) as i128, ..c }, true)
                } else {
                    (c, false)
                }
            },
            Transaction::Dispute { .. } => {
                if c.available - amount >= i128::MIN && c.held + amount <= i128::MAX {
                    (
                        Client {
                            available: (c.available - amount) as i128,
                            held: (c.held + amount) as i128,
                            ..c
                        },
                        true,
                    )
                } else {
                    (c, false)
                }
            },
            Transaction::Resolve { .. } => {
                if c.available + amount <= i128::MAX && c.held - amount >= i128::MIN {
                    (
                        Client {
                            available: (c.available + amount) as i128,
                            held: (c.held - amount) as i128,
                            ..c
                        },
                        true,
                    )
                } else {
                    (c, false)
                }
            },
            Transaction::Chargeback { .. } => {
                if c.available - amount >= i128::MIN && c.held - amount >= i128::MIN {
                    (
                        Client {
                            available: (c.available - amount) as i128,
                            held: (c.held - amount) as i128,
                            locked: true,
                            ..c
                        },
                        true,
                    )
                } else {
                    (c, false)
                }
            },
            _ => (c, false),
        }
    }
}

/// The account after replaying a sequence of records in order, each with its
/// own stored amount.
pub open spec fn client_replay(c: Client, ts: Seq<Transaction>) -> Client
    decreases ts.len(),
{
    if ts.len() == 0 {
        c
    } else {
        client_replay(client_step(c, ts[0], ts[0].spec_amount()).0, ts.drop_first())
    }
}

/// The sum of the amounts of all deposits in a sequence.
pub open spec fn sum_deposits(ts: Seq<Transaction>) -> int
    decreases ts.len(),
{
    if ts.len() == 0 {
        0
    } else {
        (if ts[0] is Deposit {
            ts[0].spec_amount() as int
        } else {
            0
        }) + sum_deposits(ts.drop_first())
    }
}

/// The sum of the amounts of the withdrawals that are accepted when the
/// sequence is replayed from `c`.
pub open spec fn sum_accepted_withdrawals(c: Client, ts: Seq<Transaction>) -> int
    decreases ts.len(),
{
    if ts.len() == 0 {
        0
    } else {
        let (c1, ok) = client_step(c, ts[0], ts[0].spec_amount());
        (if ts[0] is Withdrawal && ok {
            ts[0].spec_amount() as int
        } else {
            0
        }) + sum_accepted_withdrawals(c1, ts.drop_first())
    }
}

pub proof fn lemma_sum_deposits_nonneg(ts: Seq<Transaction>)
    ensures
        sum_deposits(ts) >= 0,
    decreases ts.len(),
{
    if ts.len() > 0 {
        lemma_sum_deposits_nonneg(ts.drop_first());
    }
}

/// Replaying deposits and withdrawals on an unlocked account with a
/// non-negative balance keeps the balance non-negative, never touches the
/// held funds or the lock, and leaves `available` equal to the starting
/// balance plus every deposit minus every accepted withdrawal; rejected
/// withdrawals change nothing. The bound on the deposit total is what makes
/// every deposit representable, so none is rejected.
pub proof fn lemma_replay_primaries(c: Client, ts: Seq<Transaction>)
    requires
        !c.locked,
        c.available >= 0,
        forall|i: int| 0 <= i < ts.len() ==> (#[trigger] ts[i]) is Deposit || ts[i] is Withdrawal,
        c.available + sum_deposits(ts) <= i128::MAX,
    ensures
        client_replay(c, ts).available == c.available + sum_deposits(ts)
            - sum_accepted_withdrawals(c, ts),
        client_replay(c, ts).available >= 0,
        client_replay(c, ts).held == c.held,
        client_replay(c, ts).locked == false,
        client_replay(c, ts).id == c.id,
    decreases ts.len(),
{
    if ts.len() > 0 {
        let (c1, ok) = client_step(c, ts[0], ts[0].spec_amount());
        lemma_sum_deposits_nonneg(ts.drop_first());
        assert(forall|i: int|
            0 <= i < ts.drop_first().len() ==> (#[trigger] ts.drop_first()[i]) is Deposit
                || ts.drop_first()[i] is Withdrawal);
        lemma_replay_primaries(c1, ts.drop_first());
    }
}

/// Replay on a fresh account: `available` ends at the deposit total minus
/// the accepted-withdrawal total, and nothing is ever held or locked.
pub proof fn lemma_replay_fresh(id: u16, ts: Seq<Transaction>)
    requires
        forall|i: int| 0 <= i < ts.len() ==> (#[trigger] ts[i]) is Deposit || ts[i] is Withdrawal,
        sum_deposits(ts) <= i128::MAX,
    ensures
        ({
            let fresh = Client { id, available: 0, held: 0, locked: false };
            let end = client_replay(fresh, ts);
            end.available == sum_deposits(ts) - sum_accepted_withdrawals(fresh, ts) && end.held == 0
                && !end.locked
        }),
{
    let fresh = Client { id, available: 0, held: 0, locked: false };
    lemma_replay_primaries(fresh, ts);
}

/// On an unlocked account, a withdrawal is accepted exactly when its amount
/// is at most the available balance at the moment it is applied; a rejected
/// withdrawal leaves the account unchanged.
pub proof fn lemma_withdrawal_accepted_iff_covered(c: Client, t: Transaction, amount: u64)
    requires
        !c.locked,
        t is Withdrawal,
    ensures
        client_step(c, t, amount).1 == (c.available >= amount),
        !client_step(c, t, amount).1 ==> client_step(c, t, amount).0 == c,
{
}

impl Client {
    /// A fresh, unlocked account with empty balances.
    pub fn new(id: u16) -> (c: Client)
        ensures
            c == (Client { id, available: 0, held: 0, locked: false }),
    {
        Client { id, available: 0, held: 0, locked: false }
    }

    /// Applies the effect of one record to this account, exactly as
    /// [`client_step`] describes it; the result says whether the record was
    /// accepted.
    pub fn apply_transaction(&mut self, transaction: &Transaction, amount: u64) -> (added: bool)
        ensures
            (*final(self), added) == client_step(*old(self), *transaction, amount),
    {
        if self.locked {
            return false;
        }
        match transaction {
            Transaction::Deposit { .. } => {
                if self.available <= i128::MAX - amount as i128 {
                    self.available = self.available + amount as i128;
                    true
                } else {
                    false
                }
            },
            Transaction::Withdrawal { .. } => {
                if self.available >= amount as i128 {
                    self.available = self.available - amount as i128;
                    true
                } else {
                    false
                }
            },
            Transaction::Dispute { .. } => {
                if self.available >= i128::MIN + amount as i128 && self.held <= i128::MAX
                    - amount as i128 {
                    self.available = self.available - amount as i128;
                    self.held = self.held + amount as i128;
                    true
                } else {
                    false
                }
            },
            Transaction::Resolve { .. } => {
                if self.available <= i128::MAX - amount as i128 && self.held >= i128::MIN
                    + amount as i128 {
                    self.available = self.available + amount as i128;
                    self.held = self.held - amount as i128;
                    true
                } else {
                    false
                }
            },
            Transaction::Chargeback { .. } => {
                if self.available >= i128::MIN + amount as i128 && self.held >= i128::MIN
                    + amount as i128 {
                    self.available = self.available - amount as i128;
                    self.held = self.held - amount as i128;
                    self.set_locked(true);
                    true
                } else {
                    false
                }
            },
            _ => false,
        }
    }

    /// Locking is permanent: a `true` argument locks the account, a `false`
    /// one never clears an existing lock.
    pub fn set_locked(&mut self, locked: bool)
        ensures
            *final(self) == (Client { locked: old(self).locked || locked, ..*old(self) }),
    {
        self.locked = self.locked || locked;
    }

    pub fn is_locked(&self) -> (r: bool)
        ensures
            r == self.locked,
    {
        self.locked
    }

    pub fn id(&self) -> (r: u16)
        ensures
            r == self.id,
    {
        self.id
    }

    /// Spendable funds.
    pub fn available(&self) -> (r: i128)
        ensures
            r == self.available,
    {
        self.available
    }

    /// Funds frozen under an open dispute.
    pub fn held(&self) -> (r: i128)
        ensures
            r == self.held,
    {
        self.held
    }

    /// Total funds: spendable plus held. Both balances are bounded by the
    /// amounts ever applied, far inside the representable range, but the sum
    /// is still computed defensively.
    pub fn total(&self) -> (r: i128)
        requires
            i128::MIN <= self.available + self.held <= i128::MAX,
        ensures
            r == self.available + self.held,
    {
        self.available + self.held
    }
}

} // verus!
