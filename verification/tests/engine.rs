use payment_engine::transaction::Transaction;
use payment_engine::{InMemoryTransactionEngine, TransactionEngine};

fn find_client(engine: &InMemoryTransactionEngine, id: u16) -> payment_engine::account::Client {
    let snap = engine.snap_shot_clients();
    for client in snap {
        if client.id() == id {
            return client;
        }
    }
    panic!("no account for client {}", id);
}

#[test]
fn test_undisputed_transaction_for_resolve_chargeback() {
    let mut engine = InMemoryTransactionEngine::new();
    let deposite_trans = Transaction::new("deposit, 1, 1, 1.0");
    assert!(engine.add_transaction(deposite_trans));

    let resolve_trans = Transaction::new("resolve, 1, 1, 1.0");
    assert!(!engine.add_transaction(resolve_trans));

    let resolve_trans = Transaction::new("chargeback, 1, 1, 1.0");
    assert!(!engine.add_transaction(resolve_trans));

    let disputed_trans = Transaction::new("dispute, 1, 1");
    let resolve_trans = Transaction::new("resolve, 1, 1");
    assert!(engine.add_transaction(disputed_trans));
    assert!(engine.add_transaction(resolve_trans));

    // after above resolve, this transaction should not be active with engine
    let disputed_trans = Transaction::new("dispute, 1, 1");
    assert!(!engine.add_transaction(disputed_trans));
}

#[test]
fn test_charge_back_should_skip_all_future_transaction() {
    let mut engine = InMemoryTransactionEngine::new();
    let deposite_trans = Transaction::new("deposit, 1, 1, 1.0");
    assert!(engine.add_transaction(deposite_trans));

    let disputed_trans = Transaction::new("dispute, 1, 1");
    let resolve_trans = Transaction::new("chargeback, 1, 1");
    assert!(engine.add_transaction(disputed_trans));
    assert!(engine.add_transaction(resolve_trans));

    let deposite_trans = Transaction::new("deposit, 1, 2, 1.0");
    assert!(!engine.add_transaction(deposite_trans));
}

#[test]
fn test_withdrawal_shold_be_skipped_if_low_balance() {
    let mut engine = InMemoryTransactionEngine::new();
    let deposite_trans = Transaction::new("deposit, 1, 1, 1.0");
    assert!(engine.add_transaction(deposite_trans));

    let withdrawal_trans = Transaction::new("withdrawal, 1, 2, 1.1");
    assert!(!engine.add_transaction(withdrawal_trans));

    let disputed_trans = Transaction::new("dispute, 1, 2");
    assert!(!engine.add_transaction(disputed_trans));

    let disputed_trans = Transaction::new("dispute, 1, 1");
    assert!(engine.add_transaction(disputed_trans));
}

#[test]
fn dispute_then_resolve_restores_balances() {
    let mut engine = InMemoryTransactionEngine::new();
    assert!(engine.add_transaction(Transaction::new("deposit, 1, 1, 1.0")));
    assert!(engine.add_transaction(Transaction::new("deposit, 1, 2, 0.5")));

    assert!(engine.add_transaction(Transaction::new("dispute, 1, 1")));
    let disputed = find_client(&engine, 1);
    assert_eq!(disputed.available(), 5000);
    assert_eq!(disputed.held(), 10000);
    assert_eq!(disputed.total(), 15000);

    assert!(engine.add_transaction(Transaction::new("resolve, 1, 1")));
    let resolved = find_client(&engine, 1);
    assert_eq!(resolved.available(), 15000);
    assert_eq!(resolved.held(), 0);
    assert!(!resolved.is_locked());
}

#[test]
fn chargeback_debits_both_balances_and_locks() {
    let mut engine = InMemoryTransactionEngine::new();
    assert!(engine.add_transaction(Transaction::new("deposit, 1, 1, 1.0")));
    assert!(engine.add_transaction(Transaction::new("dispute, 1, 1")));
    assert!(engine.add_transaction(Transaction::new("chargeback, 1, 1")));

    // the chargeback takes the disputed amount out of both balances
    let client = find_client(&engine, 1);
    assert_eq!(client.available(), -10000);
    assert_eq!(client.held(), 0);
    assert_eq!(client.total(), -10000);
    assert!(client.is_locked());

    assert!(!engine.add_transaction(Transaction::new("deposit, 1, 2, 1.0")));
    let unchanged = find_client(&engine, 1);
    assert_eq!(unchanged.available(), -10000);
    assert!(unchanged.is_locked());
}

#[test]
fn insufficient_withdrawal_then_disputes() {
    let mut engine = InMemoryTransactionEngine::new();
    assert!(engine.add_transaction(Transaction::new("deposit, 1, 1, 1.0")));
    assert!(!engine.add_transaction(Transaction::new("withdrawal, 1, 2, 1.1")));
    let client = find_client(&engine, 1);
    assert_eq!(client.available(), 10000);

    // transaction 2 was never stored, so it cannot be disputed
    assert!(!engine.add_transaction(Transaction::new("dispute, 1, 2")));
    // transaction 1 is live and primary, so it can
    assert!(engine.add_transaction(Transaction::new("dispute, 1, 1")));
}

#[test]
fn deposits_and_withdrawals_accumulate() {
    let mut engine = InMemoryTransactionEngine::new();
    assert!(engine.add_transaction(Transaction::new("deposit, 7, 1, 2.5")));
    assert!(engine.add_transaction(Transaction::new("deposit, 7, 2, 0.25")));
    assert!(engine.add_transaction(Transaction::new("withdrawal, 7, 3, 1.0")));
    assert!(!engine.add_transaction(Transaction::new("withdrawal, 7, 4, 2.0")));

    let client = find_client(&engine, 7);
    assert_eq!(client.available(), 25000 + 2500 - 10000);
    assert_eq!(client.held(), 0);
    assert!(!client.is_locked());
}

#[test]
fn duplicate_transaction_id_is_rejected() {
    let mut engine = InMemoryTransactionEngine::new();
    assert!(engine.add_transaction(Transaction::new("deposit, 1, 1, 1.0")));
    // a live transaction id is claimed at most once
    assert!(!engine.add_transaction(Transaction::new("deposit, 1, 1, 1.0")));
    let client = find_client(&engine, 1);
    assert_eq!(client.available(), 10000);
}

#[test]
fn rejected_withdrawal_still_creates_the_account() {
    let mut engine = InMemoryTransactionEngine::new();
    assert!(!engine.add_transaction(Transaction::new("withdrawal, 9, 1, 1.0")));
    let client = find_client(&engine, 9);
    assert_eq!(client.available(), 0);
    assert_eq!(client.held(), 0);
    assert!(!client.is_locked());
}

#[test]
fn dispute_needs_a_known_client() {
    let mut engine = InMemoryTransactionEngine::new();
    assert!(engine.add_transaction(Transaction::new("deposit, 1, 1, 1.0")));
    // client 2 has never been seen, so its dispute is rejected
    assert!(!engine.add_transaction(Transaction::new("dispute, 2, 1")));
    assert!(engine.add_transaction(Transaction::new("dispute, 1, 1")));
}

#[test]
fn second_dispute_on_same_transaction_is_rejected() {
    let mut engine = InMemoryTransactionEngine::new();
    assert!(engine.add_transaction(Transaction::new("deposit, 1, 1, 1.0")));
    assert!(engine.add_transaction(Transaction::new("dispute, 1, 1")));
    assert!(!engine.add_transaction(Transaction::new("dispute, 1, 1")));
    let client = find_client(&engine, 1);
    assert_eq!(client.available(), 0);
    assert_eq!(client.held(), 10000);
}

#[test]
fn snapshot_covers_every_client() {
    let mut engine = InMemoryTransactionEngine::new();
    assert!(engine.add_transaction(Transaction::new("deposit, 1, 1, 1.0")));
    assert!(engine.add_transaction(Transaction::new("deposit, 2, 2, 2.0")));
    let snap = engine.snap_shot_clients();
    assert_eq!(snap.len(), 2);
    assert_eq!(find_client(&engine, 1).available(), 10000);
    assert_eq!(find_client(&engine, 2).available(), 20000);
}
