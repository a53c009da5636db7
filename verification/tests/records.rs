use payment_engine::account::Client;
use payment_engine::transaction::validator::is_valid_input;
use payment_engine::transaction::{Transaction, TransactionType};

#[test]
fn valid_lines_are_accepted() {
    assert!(is_valid_input("deposit, 1, 1, 1.0"));
    assert!(is_valid_input("deposit,1,1,1.5"));
    assert!(is_valid_input("withdrawal, 1, 2, 0.0001"));
    assert!(is_valid_input("dispute, 1, 1"));
    assert!(is_valid_input("resolve, 1, 1"));
    assert!(is_valid_input("chargeback, 1, 1"));
    // reference records may carry a trailing field; it is ignored
    assert!(is_valid_input("resolve, 1, 1, 1.0"));
    // ids may carry a plus sign and leading zeros
    assert!(is_valid_input("deposit, +12, 007, 3"));
    assert!(is_valid_input("deposit, 65535, 4294967295, 5.25"));
}

#[test]
fn invalid_lines_are_rejected() {
    assert!(!is_valid_input(""));
    assert!(!is_valid_input("deposit, 1"));
    assert!(!is_valid_input("transfer, 1, 1, 1.0"));
    // a deposit needs an amount
    assert!(!is_valid_input("deposit, 1, 1"));
    // out-of-range ids
    assert!(!is_valid_input("deposit, 65536, 1, 1.0"));
    assert!(!is_valid_input("deposit, 1, 4294967296, 1.0"));
    // malformed amounts
    assert!(!is_valid_input("deposit, 1, 1, .5"));
    assert!(!is_valid_input("deposit, 1, 1, 1."));
    assert!(!is_valid_input("deposit, 1, 1, 1.12345"));
    assert!(!is_valid_input("deposit, 1, 1, 1.2.3"));
    assert!(!is_valid_input("deposit, 1, 1, -1.0"));
    assert!(!is_valid_input("deposit, 1, 1, abc"));
    assert!(!is_valid_input("deposit, -1, 1, 1.0"));
}

#[test]
fn parsing_scales_amounts_to_fixed_point() {
    assert_eq!(
        Transaction::new("deposit, 1, 1, 1.0"),
        Transaction::Deposit { client_id: 1, transaction_id: 1, amount: 10000 }
    );
    assert_eq!(
        Transaction::new("deposit, 1, 2, 1.5"),
        Transaction::Deposit { client_id: 1, transaction_id: 2, amount: 15000 }
    );
    assert_eq!(
        Transaction::new("withdrawal,2,7,0.0001"),
        Transaction::Withdrawal { client_id: 2, transaction_id: 7, amount: 1 }
    );
    assert_eq!(
        Transaction::new("deposit, 3, 8, 42"),
        Transaction::Deposit { client_id: 3, transaction_id: 8, amount: 420000 }
    );
    assert_eq!(
        Transaction::new("dispute, 4, 9"),
        Transaction::Dispute { client_id: 4, transaction_id: 9 }
    );
    assert_eq!(
        Transaction::new("resolve, 4, 9"),
        Transaction::Resolve { client_id: 4, transaction_id: 9 }
    );
    assert_eq!(
        Transaction::new("chargeback, 4, 9"),
        Transaction::Chargeback { client_id: 4, transaction_id: 9 }
    );
}

#[test]
fn transaction_type_names_round_trip() {
    let names: Vec<&str> = TransactionType::iterator().iter().map(|t| t.as_str()).collect();
    assert_eq!(names, vec!["deposit", "withdrawal", "dispute", "resolve", "chargeback"]);
}

#[test]
fn disputed_forms_round_trip() {
    let deposit = Transaction::Deposit { client_id: 1, transaction_id: 2, amount: 30000 };
    let (disputed, amount) = deposit.make_disputed_transaction().unwrap();
    assert_eq!(amount, 30000);
    assert_eq!(
        disputed,
        Transaction::DisputedDeposit { client_id: 1, transaction_id: 2, amount: 30000 }
    );
    assert!(disputed.is_disputed());
    assert!(!disputed.is_non_refering());
    let (back, amount_back) = disputed.get_disputed_transaction().unwrap();
    assert_eq!(back, deposit);
    assert_eq!(amount_back, 30000);

    // reference records cannot enter the disputed form
    let dispute = Transaction::Dispute { client_id: 1, transaction_id: 2 };
    assert_eq!(dispute.make_disputed_transaction(), Err(dispute));
    // and primary records cannot leave it
    assert_eq!(deposit.get_disputed_transaction(), Err(deposit));
}

#[test]
fn client_applies_each_record_kind() {
    let mut client = Client::new(1);
    assert_eq!(client.id(), 1);

    let deposit = Transaction::Deposit { client_id: 1, transaction_id: 1, amount: 10000 };
    assert!(client.apply_transaction(&deposit, 10000));
    assert_eq!(client.available(), 10000);

    let withdrawal = Transaction::Withdrawal { client_id: 1, transaction_id: 2, amount: 11000 };
    assert!(!client.apply_transaction(&withdrawal, 11000));
    assert_eq!(client.available(), 10000);

    let dispute = Transaction::Dispute { client_id: 1, transaction_id: 1 };
    assert!(client.apply_transaction(&dispute, 10000));
    assert_eq!(client.available(), 0);
    assert_eq!(client.held(), 10000);

    let resolve = Transaction::Resolve { client_id: 1, transaction_id: 1 };
    assert!(client.apply_transaction(&resolve, 10000));
    assert_eq!(client.available(), 10000);
    assert_eq!(client.held(), 0);

    assert!(client.apply_transaction(&dispute, 10000));
    let chargeback = Transaction::Chargeback { client_id: 1, transaction_id: 1 };
    assert!(client.apply_transaction(&chargeback, 10000));
    assert_eq!(client.available(), -10000);
    assert_eq!(client.held(), 0);
    assert!(client.is_locked());

    // a locked account accepts nothing
    assert!(!client.apply_transaction(&deposit, 10000));
    assert_eq!(client.available(), -10000);
}

#[test]
fn disputing_can_drive_available_negative() {
    let mut client = Client::new(1);
    let deposit = Transaction::Deposit { client_id: 1, transaction_id: 1, amount: 10000 };
    let withdrawal = Transaction::Withdrawal { client_id: 1, transaction_id: 2, amount: 10000 };
    assert!(client.apply_transaction(&deposit, 10000));
    assert!(client.apply_transaction(&withdrawal, 10000));
    // the deposit is disputed after its funds were spent
    let dispute = Transaction::Dispute { client_id: 1, transaction_id: 1 };
    assert!(client.apply_transaction(&dispute, 10000));
    assert_eq!(client.available(), -10000);
    assert_eq!(client.held(), 10000);
    assert_eq!(client.total(), 0);
}

#[test]
fn disputed_forms_are_rejected_by_apply() {
    let mut client = Client::new(1);
    let stored = Transaction::DisputedDeposit { client_id: 1, transaction_id: 1, amount: 10000 };
    assert!(!client.apply_transaction(&stored, 10000));
    assert_eq!(client.available(), 0);
}

#[test]
fn locking_is_permanent() {
    let mut client = Client::new(1);
    assert!(!client.is_locked());
    client.set_locked(true);
    assert!(client.is_locked());
    client.set_locked(false);
    assert!(client.is_locked());
}
