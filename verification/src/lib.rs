use vstd::prelude::*;

use std::collections::HashMap;

use crate::account::{client_step, Client};
use crate::transaction::Transaction;

pub mod account;
pub mod transaction;

verus! {

broadcast use vstd::std_specs::hash::group_hash_axioms;

/// Smallest representable money unit: balances and amounts are scaled
/// fixed-point values with four decimal places.
pub const AMOUNT_SCALE: u64 = 10000;

/// The abstract state of a transaction engine: the live store of records
/// still eligible for dispute/resolve/chargeback, every account seen so far,
/// and the two audit trails (records blocked by a locked account, and
/// primary records whose dispute was finalized).
#[verifier::ext_equal]
pub ghost struct EngineModel {
    pub transactions: Map<u32, Transaction>,
    pub clients: Map<u16, Client>,
    pub blocked: Seq<Transaction>,
    pub finalized: Seq<Transaction>,
}

impl EngineModel {
    /// The state of an engine that has seen no records.
    pub open spec fn empty() -> EngineModel {
        EngineModel {
            transactions: Map::empty(),
            clients: Map::empty(),
            blocked: Seq::empty(),
            finalized: Seq::empty(),
        }
    }
}

/// How one record changes the whole engine: the pure transition that
/// [`TransactionEngine::add_transaction`] must implement. Returns the state
/// after the record and whether the record was accepted; a rejected record
/// mutates no balance and at most appends to the blocked audit trail.
///
/// The rules, in the order they are checked:
/// - A record addressed to a locked account is appended to the blocked list
///   and rejected, whatever its kind.
/// - A deposit or withdrawal whose transaction id is already live is
///   rejected: a live id is claimed at most once. Otherwise the account is
///   created on first sight, the balance effect of [`client_step`] is
///   applied, and on acceptance the record enters the live store.
/// - A dispute needs a known client and a live primary record under its
///   transaction id; the stored record is rewritten into its disputed form
///   carrying the same amount. A dispute on an already disputed record is
///   rejected and the store is left unchanged.
/// - A resolve or chargeback needs a known client and a live record in
///   disputed form; the record leaves the live store and its primary form is
///   appended to the finalized list. On a record that is live but not
///   disputed, nothing changes and the record stays live.
/// - A disputed storage form arriving as an input is a contract violation
///   and is rejected.
pub open spec fn engine_step(m: EngineModel, t: Transaction) -> (EngineModel, bool) {
    let c = t.spec_client_id();
    if m.clients.contains_key(c) && m.clients[c].locked {
        (EngineModel { blocked: m.blocked.push(t), ..m }, false)
    } else {
        match t {
            Transaction::Deposit { client_id, transaction_id, .. }
            | Transaction::Withdrawal { client_id, transaction_id, .. } => {
                if m.transactions.contains_key(transaction_id) {
                    (m, false)
                } else {
                    let c0 = if m.clients.contains_key(client_id) {
                        m.clients[client_id]
                    } else {
                        Client { id: client_id, available: 0, held: 0, locked: false }
                    };
                    let (c1, ok) = client_step(c0, t, t.spec_amount());
                    (
                        EngineModel {
                            clients: m.clients.insert(client_id, c1),
                            transactions: if ok {
                                m.transactions.insert(transaction_id, t)
                            } else {
                                m.transactions
                            },
                            ..m
                        },
                        ok,
                    )
                }
            },
            Transaction::Dispute { client_id, transaction_id } => {
                if !m.clients.contains_key(client_id) || !m.transactions.contains_key(
                    transaction_id,
                ) {
                    (m, false)
                } else {
                    let ex = m.transactions[transaction_id];
                    if ex.spec_is_primary() {
                        let (c1, ok) = client_step(m.clients[client_id], t, ex.spec_amount());
                        if ok {
                            (
                                EngineModel {
                                    clients: m.clients.insert(client_id, c1),
                                    transactions: m.transactions.insert(
                                        transaction_id,
                                        ex.spec_disputed_form(),
                                    ),
                                    ..m
                                },
                                true,
                            )
                        } else {
                            (m, false)
                        }
                    } else {
                        (m, false)
                    }
                }
            },
            Transaction::Resolve { client_id, transaction_id }
            | Transaction::Chargeback { client_id, transaction_id } => {
                if !m.clients.contains_key(client_id) || !m.transactions.contains_key(
                    transaction_id,
                ) {
                    (m, false)
                } else {
                    let ex = m.transactions[transaction_id];
                    if ex.spec_is_disputed() {
                        let (c1, ok) = client_step(m.clients[client_id], t, ex.spec_amount());
                        if ok {
                            (
                                EngineModel {
                                    clients: m.clients.insert(client_id, c1),
                                    transactions: m.transactions.remove(transaction_id),
                                    finalized: m.finalized.push(ex.spec_primary_form()),
                                    ..m
                                },
                                true,
                            )
                        } else {
                            (m, false)
                        }
                    } else {
                        (m, false)
                    }
                }
            },
            _ => (m, false),
        }
    }
}

/// A transaction engine: applies one validated record at a time, in arrival
/// order, exactly as [`engine_step`] describes, and can hand out a snapshot
/// of every account at any point between applies.
pub trait TransactionEngine {
    /// The implementation's internal consistency.
    spec fn wf(&self) -> bool;

    /// The abstract state the implementation currently represents.
    spec fn model(&self) -> EngineModel;

    /// Applies one record; the result says whether it was accepted.
    fn add_transaction(&mut self, transaction: Transaction) -> (added: bool)
        requires
            old(self).wf(),
        ensures
            final(self).wf(),
            (final(self).model(), added) == engine_step(old(self).model(), transaction),
    ;

    /// A consistent copy of every account known to the engine, one entry per
    /// client, in no prescribed order.
    fn snap_shot_clients(&self) -> (snap: Vec<Client>)
        requires
            self.wf(),
        ensures
            forall|i: int, j: int|
                0 <= i < j < snap@.len() ==> snap@[i].id != snap@[j].id,
            forall|i: int|
                0 <= i < snap@.len() ==> self.model().clients.contains_key(
                    (#[trigger] snap@[i]).id,
                ) && snap@[i] == self.model().clients[snap@[i].id],
            forall|k: u16|
                #[trigger] self.model().clients.contains_key(k) ==> exists|i: int|
                    0 <= i < snap@.len() && (#[trigger] snap@[i]).id == k,
    ;
}

/// The in-memory engine: the live store and the accounts as hash maps keyed
/// by transaction id and client id, plus the two audit trails. A side list
/// of client ids remembers the order in which accounts were first seen, so
/// that a snapshot can walk every account.
pub struct InMemoryTransactionEngine {
    transactions: HashMap<u32, Transaction>,
    clients: HashMap<u16, Client>,
    client_ids: Vec<u16>,
    blocked_transactions: Vec<Transaction>,
    finalized_transactions: Vec<Transaction>,
}

impl InMemoryTransactionEngine {
    pub fn new() -> (engine: Self)
        ensures
            engine.wf(),
            engine.model() == EngineModel::empty(),
    {
        let engine = InMemoryTransactionEngine {
            transactions: HashMap::new(),
            clients: HashMap::new(),
            client_ids: Vec::new(),
            blocked_transactions: Vec::new(),
            finalized_transactions: Vec::new(),
        };
        proof {
            assert(engine.model() =~~= EngineModel::empty());
        }
        engine
    }
}

impl TransactionEngine for InMemoryTransactionEngine {
    closed spec fn wf(&self) -> bool {
        &&& forall|i: int, j: int|
            0 <= i < j < self.client_ids@.len() ==> self.client_ids@[i] != self.client_ids@[j]
        &&& forall|i: int|
            0 <= i < self.client_ids@.len() ==> self.clients@.contains_key(
                #[trigger] self.client_ids@[i],
            )
        &&& forall|k: u16| #[trigger] self.clients@.contains_key(k) ==> self.client_ids@.contains(k)
        &&& forall|k: u16|
            self.clients@.contains_key(k) ==> (#[trigger] self.clients@[k]).id == k
        &&& forall|x: u32|
            #[trigger] self.transactions@.contains_key(x) ==> {
                let t = self.transactions@[x];
                (t.spec_is_primary() || t.spec_is_disputed()) && t.spec_transaction_id() == x
            }
    }

    closed spec fn model(&self) -> EngineModel {
        EngineModel {
            transactions: self.transactions@,
            clients: self.clients@,
            blocked: self.blocked_transactions@,
            finalized: self.finalized_transactions@,
        }
    }

    fn add_transaction(&mut self, transaction: Transaction) -> (added: bool) {
        let client_id = transaction.client_id();
        let stored_client = match self.clients.get(&client_id) {
            Some(c) => Some(*c),
            None => None,
        };
        if let Some(c) = stored_client {
            if c.is_locked() {
                self.blocked_transactions.push(transaction);
                proof {
                    assert(self.model() =~~= engine_step(old(self).model(), transaction).0);
                }
                return false;
            }
        }
        match transaction {
            Transaction::Deposit { client_id, transaction_id, amount }
            | Transaction::Withdrawal { client_id, transaction_id, amount } => {
                if self.transactions.contains_key(&transaction_id) {
                    proof {
                        assert(self.model() =~~= engine_step(old(self).model(), transaction).0);
                    }
                    return false;
                }
                let (mut client, existed) = match stored_client {
                    Some(c) => (c, true),
                    None => (Client::new(client_id), false),
                };
                let added = client.apply_transaction(&transaction, amount);
                if !existed {
                    self.client_ids.push(client_id);
                }
                self.clients.insert(client_id, client);
                if added {
                    self.transactions.insert(transaction_id, transaction);
                }
                proof {
                    let pre = old(self);
                    if !existed {
                        assert forall|i: int|
                            0 <= i < pre.client_ids@.len() implies pre.client_ids@[i]
                            != client_id by {
                            assert(pre.clients@.contains_key(pre.client_ids@[i]));
                        }
                    }
                    assert forall|k: u16| #[trigger]
                        self.clients@.contains_key(k) implies self.client_ids@.contains(k) by {
                        if k == client_id && !existed {
                            assert(self.client_ids@[self.client_ids@.len() - 1] == client_id);
                        } else {
                            assert(pre.clients@.contains_key(k));
                            let i = choose|i: int|
                                0 <= i < pre.client_ids@.len() && pre.client_ids@[i] == k;
                            assert(self.client_ids@[i] == k);
                        }
                    }
                    assert(self.model() =~~= engine_step(old(self).model(), transaction).0);
                }
                added
            },
            Transaction::Dispute { client_id, transaction_id } => {
                let mut client = match stored_client {
                    Some(c) => c,
                    None => {
                        return false;
                    },
                };
                match self.transactions.remove(&transaction_id) {
                    Some(existing_transaction) => {
                        match existing_transaction.make_disputed_transaction() {
                            Ok((disputed_transaction, amount)) => {
                                let added = client.apply_transaction(&transaction, amount);
                                if added {
                                    self.clients.insert(client_id, client);
                                    self.transactions.insert(transaction_id, disputed_transaction);
                                    proof {
                                        assert(self.model() =~~= engine_step(
                                            old(self).model(),
                                            transaction,
                                        ).0);
                                    }
                                    true
                                } else {
                                    // the balance effect was refused: put the
                                    // record back untouched
                                    self.transactions.insert(transaction_id, existing_transaction);
                                    proof {
                                        assert(self.model() =~~= engine_step(
                                            old(self).model(),
                                            transaction,
                                        ).0);
                                    }
                                    false
                                }
                            },
                            Err(original_transaction) => {
                                // not disputable (already disputed): keep the
                                // record as it was
                                self.transactions.insert(transaction_id, original_transaction);
                                proof {
                                    assert(self.model() =~~= engine_step(
                                        old(self).model(),
                                        transaction,
                                    ).0);
                                }
                                false
                            },
                        }
                    },
                    None => false,
                }
            },
            Transaction::Resolve { client_id, transaction_id }
            | Transaction::Chargeback { client_id, transaction_id } => {
                let mut client = match stored_client {
                    Some(c) => c,
                    None => {
                        return false;
                    },
                };
                match self.transactions.remove(&transaction_id) {
                    Some(existing_transaction) => {
                        if existing_transaction.is_disputed() {
                            match existing_transaction.get_disputed_transaction() {
                                Ok((primary_transaction, amount)) => {
                                    let added = client.apply_transaction(&transaction, amount);
                                    if added {
                                        self.clients.insert(client_id, client);
                                        self.finalized_transactions.push(primary_transaction);
                                        proof {
                                            assert(self.model() =~~= engine_step(
                                                old(self).model(),
                                                transaction,
                                            ).0);
                                        }
                                        true
                                    } else {
                                        self.transactions.insert(
                                            transaction_id,
                                            existing_transaction,
                                        );
                                        proof {
                                            assert(self.model() =~~= engine_step(
                                                old(self).model(),
                                                transaction,
                                            ).0);
                                        }
                                        false
                                    }
                                },
                                Err(original_transaction) => {
                                    self.transactions.insert(transaction_id, original_transaction);
                                    proof {
                                        assert(self.model() =~~= engine_step(
                                            old(self).model(),
                                            transaction,
                                        ).0);
                                    }
                                    false
                                },
                            }
                        } else {
                            // live but not disputed: the record must not be
                            // lost
                            self.transactions.insert(transaction_id, existing_transaction);
                            proof {
                                assert(self.model() =~~= engine_step(old(self).model(), transaction).0);
                            }
                            false
                        }
                    },
                    None => false,
                }
            },
            Transaction::DisputedDeposit { .. } | Transaction::DisputedWithdrawal { .. } => false,
        }
    }

    fn snap_shot_clients(&self) -> (snap: Vec<Client>) {
        let mut snap: Vec<Client> = Vec::new();
        let n = self.client_ids.len();
        for pos in 0..n
            invariant
                n == self.client_ids@.len(),
                self.wf(),
                snap@.len() == pos,
                forall|i: int|
                    0 <= i < pos ==> (#[trigger] snap@[i]).id == self.client_ids@[i] && snap@[i]
                        == self.model().clients[self.client_ids@[i]],
        {
            let id = self.client_ids[pos];
            match self.clients.get(&id) {
                Some(c) => snap.push(*c),
                None => {
                    proof {
                        assert(false);
                    }
                },
            }
        }
        proof {
            assert forall|k: u16| #[trigger]
                self.model().clients.contains_key(k) implies exists|i: int|
                0 <= i < snap@.len() && (#[trigger] snap@[i]).id == k by {
                let i = choose|i: int|
                    0 <= i < self.client_ids@.len() && self.client_ids@[i] == k;
                assert(self.client_ids@.contains(k));
                assert(snap@[i].id == k);
            }
        }
        snap
    }
}

/// An accepted dispute on a live primary record with amount `a` moves `a`
/// from the client's available funds to its held funds, and makes the record
/// unavailable for a second dispute, from any client, until it is resolved.
pub proof fn lemma_dispute_effect(m: EngineModel, client_id: u16, transaction_id: u32)
    requires
        m.clients.contains_key(client_id),
        !m.clients[client_id].locked,
        m.transactions.contains_key(transaction_id),
        m.transactions[transaction_id].spec_is_primary(),
        m.clients[client_id].available - m.transactions[transaction_id].spec_amount()
            >= i128::MIN,
        m.clients[client_id].held + m.transactions[transaction_id].spec_amount() <= i128::MAX,
    ensures
        ({
            let a = m.transactions[transaction_id].spec_amount();
            let (m1, accepted) = engine_step(
                m,
                Transaction::Dispute { client_id, transaction_id },
            );
            &&& accepted
            &&& m1.clients[client_id].available == m.clients[client_id].available - a
            &&& m1.clients[client_id].held == m.clients[client_id].held + a
            &&& forall|other: u16|
                !engine_step(
                    m1,
                    Transaction::Dispute { client_id: other, transaction_id },
                ).1
        }),
{
}

/// An accepted resolve on a disputed record with amount `a` moves `a` back
/// from held to available funds and retires the record: no later dispute,
/// resolve or chargeback referring to its id is accepted.
pub proof fn lemma_resolve_effect(m: EngineModel, client_id: u16, transaction_id: u32)
    requires
        m.clients.contains_key(client_id),
        !m.clients[client_id].locked,
        m.transactions.contains_key(transaction_id),
        m.transactions[transaction_id].spec_is_disputed(),
        m.clients[client_id].available + m.transactions[transaction_id].spec_amount()
            <= i128::MAX,
        m.clients[client_id].held - m.transactions[transaction_id].spec_amount() >= i128::MIN,
    ensures
        ({
            let a = m.transactions[transaction_id].spec_amount();
            let (m1, accepted) = engine_step(
                m,
                Transaction::Resolve { client_id, transaction_id },
            );
            &&& accepted
            &&& m1.clients[client_id].available == m.clients[client_id].available + a
            &&& m1.clients[client_id].held == m.clients[client_id].held - a
            &&& !m1.transactions.contains_key(transaction_id)
            &&& forall|t: Transaction|
                ((t is Dispute || t is Resolve || t is Chargeback)
                    && t.spec_transaction_id() == transaction_id) ==> !engine_step(m1, t).1
        }),
{
}

/// An accepted chargeback on a disputed record with amount `a` takes `a`
/// out of both balances, locks the account for good, and from then on every
/// record addressed to that client is rejected with no effect beyond the
/// blocked audit trail.
pub proof fn lemma_chargeback_effect(m: EngineModel, client_id: u16, transaction_id: u32)
    requires
        m.clients.contains_key(client_id),
        !m.clients[client_id].locked,
        m.transactions.contains_key(transaction_id),
        m.transactions[transaction_id].spec_is_disputed(),
        m.clients[client_id].available - m.transactions[transaction_id].spec_amount()
            >= i128::MIN,
        m.clients[client_id].held - m.transactions[transaction_id].spec_amount() >= i128::MIN,
    ensures
        ({
            let a = m.transactions[transaction_id].spec_amount();
            let (m1, accepted) = engine_step(
                m,
                Transaction::Chargeback { client_id, transaction_id },
            );
            &&& accepted
            &&& m1.clients[client_id].available == m.clients[client_id].available - a
            &&& m1.clients[client_id].held == m.clients[client_id].held - a
            &&& m1.clients[client_id].locked
            &&& forall|t: Transaction|
                #![trigger engine_step(m1, t)]
                t.spec_client_id() == client_id ==> {
                    let (m2, accepted2) = engine_step(m1, t);
                    &&& !accepted2
                    &&& m2.clients == m1.clients
                    &&& m2.transactions == m1.transactions
                    &&& m2.finalized == m1.finalized
                    &&& m2.blocked == m1.blocked.push(t)
                }
        }),
{
}

/// A lock never clears: whatever record is applied next, a locked account
/// stays locked.
pub proof fn lemma_lock_is_permanent(m: EngineModel, t: Transaction, client_id: u16)
    requires
        m.clients.contains_key(client_id),
        m.clients[client_id].locked,
    ensures
        engine_step(m, t).0.clients.contains_key(client_id),
        engine_step(m, t).0.clients[client_id].locked,
{
}

/// Dispute followed by resolve is a round trip: with no record in between,
/// the account comes back to its exact pre-dispute state, and the disputed
/// record retires from the live store into the finalized list in its
/// primary form.
pub proof fn lemma_dispute_resolve_round_trip(m: EngineModel, client_id: u16, transaction_id: u32)
    requires
        m.clients.contains_key(client_id),
        !m.clients[client_id].locked,
        m.transactions.contains_key(transaction_id),
        m.transactions[transaction_id].spec_is_primary(),
        m.clients[client_id].available - m.transactions[transaction_id].spec_amount()
            >= i128::MIN,
        m.clients[client_id].held + m.transactions[transaction_id].spec_amount() <= i128::MAX,
    ensures
        ({
            let (m1, accepted1) = engine_step(
                m,
                Transaction::Dispute { client_id, transaction_id },
            );
            let (m2, accepted2) = engine_step(
                m1,
                Transaction::Resolve { client_id, transaction_id },
            );
            &&& accepted1
            &&& accepted2
            &&& m2.clients[client_id] == m.clients[client_id]
            &&& m2.transactions == m.transactions.remove(transaction_id)
            &&& m2.finalized == m.finalized.push(m.transactions[transaction_id])
        }),
{
    let ex = m.transactions[transaction_id];
    let (m1, accepted1) = engine_step(m, Transaction::Dispute { client_id, transaction_id });
    let (m2, accepted2) = engine_step(m1, Transaction::Resolve { client_id, transaction_id });
    assert(ex.spec_disputed_form().spec_primary_form() == ex);
    assert(m2.clients[client_id] == m.clients[client_id]);
    assert(m2.transactions =~= m.transactions.remove(transaction_id));
}

} // verus!
