use starknet_simulator::ledger::Ledger;
use starknet_simulator::mempool::{Mempool, Rejection, Validation};
use starknet_simulator::sequencer::Sequencer;
use starknet_simulator::transaction::{Transaction, TransactionStatus, TransactionType};

fn invoke(id: usize, sender: &str, receiver: &str, amount: u64, nonce: u64) -> Transaction {
    Transaction::new(
        id,
        sender.to_string(),
        TransactionType::Invoke,
        Some(receiver.to_string()),
        None,
        Some(amount),
        nonce,
    )
}

#[test]
fn test_valid_transaction_passes() {
    let mut mempool = Mempool::new();
    let tx = Transaction::new(
        1,
        "Alice".to_string(),
        TransactionType::Invoke,
        Some("Bob".to_string()),
        None,
        Some(10),
        0,
    );

    mempool.submit_transaction(tx.clone());
    let validated_tx = mempool.validate_transaction();

    assert!(validated_tx.is_some());
    assert_eq!(validated_tx.as_ref().unwrap().status, TransactionStatus::Validated);
}

#[test]
fn test_transaction_rejected_due_to_insufficient_funds() {
    let mut mempool = Mempool::new();
    let tx = Transaction::new(
        1,
        "Mark".to_string(),
        TransactionType::Invoke,
        Some("Bob".to_string()),
        None,
        Some(50),
        0,
    );

    mempool.submit_transaction(tx.clone());
    let validated_tx = mempool.validate_transaction();

    assert!(validated_tx.is_none());
}

#[test]
fn test_transaction_rejected_due_to_insufficient_funds_for_fee() {
    let mut mempool = Mempool::new();
    let tx = Transaction::new(
        1,
        "Mike".to_string(),
        TransactionType::Invoke,
        Some("Bob".to_string()),
        None,
        Some(90),
        0,
    );

    mempool.submit_transaction(tx.clone());
    let validated_tx = mempool.validate_transaction();

    assert!(validated_tx.is_none());
}

#[test]
fn test_transaction_rejected_due_to_incorrect_nonce() {
    let mut sequencer = Sequencer::new(Mempool::new());

    let tx1 = Transaction::new(
        1,
        "Alice".to_string(),
        TransactionType::Invoke,
        Some("Bob".to_string()),
        None,
        Some(10),
        0,
    );
    sequencer.submit_transaction(tx1.clone());
    let first_round = sequencer.process_transactions();
    assert!(first_round.included == 1);

    let tx2 = Transaction::new(
        2,
        "Alice".to_string(),
        TransactionType::Invoke,
        Some("Bob".to_string()),
        None,
        Some(10),
        0,
    );
    sequencer.submit_transaction(tx2.clone());
    let second_round = sequencer.process_transactions();
    assert!(second_round.included == 0);
    assert!(matches!(second_round.dropped, Some((_, Rejection::NonceMismatch))));
}

#[test]
fn test_fee_is_deducted_only_if_validated() {
    let mut mempool = Mempool::new();

    let tx = Transaction::new(
        1,
        "Alice".to_string(),
        TransactionType::Invoke,
        Some("Bob".to_string()),
        None,
        Some(10),
        0,
    );

    let initial_balance = mempool.get_balance("Alice");

    mempool.submit_transaction(tx.clone());
    let validated_tx = mempool.validate_transaction();
    assert!(validated_tx.is_some());

    let updated_balance = mempool.get_balance("Alice");

    assert_eq!(updated_balance, initial_balance - tx.fee);
}

#[test]
fn test_nonce_is_incremented_correctly() {
    let mut sequencer = Sequencer::new(Mempool::new());

    let tx1 = Transaction::new(
        1,
        "Alice".to_string(),
        TransactionType::Invoke,
        Some("Bob".to_string()),
        None,
        Some(10),
        0,
    );
    sequencer.submit_transaction(tx1.clone());
    let round = sequencer.process_transactions();
    assert!(round.included == 1);

    let updated_nonce = sequencer.get_nonce("Alice");

    assert_eq!(updated_nonce, 1);
}

#[test]
fn test_new_mempool_holds_the_five_starting_accounts() {
    let mempool = Mempool::new();
    assert_eq!(mempool.get_balance("Alice"), 200);
    assert_eq!(mempool.get_balance("Bob"), 500);
    assert_eq!(mempool.get_balance("Mark"), 0);
    assert_eq!(mempool.get_balance("Cyndie"), 700);
    assert_eq!(mempool.get_balance("Mike"), 90);
    for name in ["Alice", "Bob", "Mark", "Cyndie", "Mike"] {
        assert_eq!(mempool.get_nonce(name), 0);
    }
    let names: Vec<&str> = mempool.accounts().iter().map(|name| name.as_str()).collect();
    assert_eq!(names, vec!["Alice", "Bob", "Mark", "Cyndie", "Mike"]);
    assert_eq!(mempool.pending(), 0);
}

#[test]
fn test_unknown_account_has_no_balance_and_nonce_zero() {
    let mempool = Mempool::new();
    assert_eq!(mempool.get_balance("Nobody"), 0);
    assert_eq!(mempool.get_nonce("Nobody"), 0);
    let ledger = Ledger::new();
    assert_eq!(ledger.get_balance("Alice"), 0);
    assert_eq!(ledger.get_nonce("Alice"), 0);
    assert!(ledger.accounts().is_empty());
}

#[test]
fn test_submission_queues_as_received_without_any_check() {
    let mut mempool = Mempool::new();
    let mut tx = invoke(1, "Nobody", "Bob", 1_000_000, 42);
    tx.update_status(TransactionStatus::Succeeded);
    assert!(mempool.submit_transaction(tx));
    assert_eq!(mempool.pending(), 1);
    match mempool.validate_next() {
        Validation::Rejected(tx, reason) => {
            assert_eq!(tx.status, TransactionStatus::Rejected);
            assert_eq!(reason, Rejection::NonceMismatch);
        }
        _ => panic!("a claimed nonce of 42 does not match"),
    }
}

#[test]
fn test_queue_is_first_in_first_out() {
    let mut mempool = Mempool::new();
    mempool.submit_transaction(invoke(11, "Alice", "Bob", 1, 0));
    mempool.submit_transaction(invoke(12, "Bob", "Alice", 1, 0));
    mempool.submit_transaction(invoke(13, "Cyndie", "Alice", 1, 0));
    assert_eq!(mempool.pending(), 3);
    assert_eq!(mempool.validate_transaction().unwrap().id, 11);
    assert_eq!(mempool.validate_transaction().unwrap().id, 12);
    assert_eq!(mempool.validate_transaction().unwrap().id, 13);
    assert!(mempool.validate_transaction().is_none());
    assert_eq!(mempool.pending(), 0);
}

#[test]
fn test_validation_of_empty_queue_finds_nothing() {
    let mut mempool = Mempool::new();
    assert!(matches!(mempool.validate_next(), Validation::Empty));
    assert!(mempool.validate_transaction().is_none());
    assert_eq!(mempool.get_balance("Alice"), 200);
}

#[test]
fn test_balance_equal_to_fee_is_not_enough() {
    let mut mempool = Mempool::new();
    let mut tx =
        Transaction::new(1, "Mike".to_string(), TransactionType::Declare, None, None, None, 0);
    tx.fee = 90;
    mempool.submit_transaction(tx);
    match mempool.validate_next() {
        Validation::Rejected(_, reason) => assert_eq!(reason, Rejection::InsufficientFeeFunds),
        _ => panic!("a balance equal to the fee must be rejected"),
    }
    assert_eq!(mempool.get_balance("Mike"), 90);
}

#[test]
fn test_amount_and_fee_must_both_be_covered() {
    let mut mempool = Mempool::new();
    mempool.submit_transaction(invoke(1, "Mike", "Bob", 86, 0));
    match mempool.validate_next() {
        Validation::Rejected(tx, reason) => {
            assert_eq!(reason, Rejection::InsufficientTransferFunds);
            assert_eq!(tx.status, TransactionStatus::Rejected);
        }
        _ => panic!("90 does not cover 86 and a fee of 5"),
    }
    assert_eq!(mempool.get_balance("Mike"), 90);

    mempool.submit_transaction(invoke(2, "Mike", "Bob", 85, 0));
    assert!(matches!(mempool.validate_next(), Validation::Validated(_)));
    assert_eq!(mempool.get_balance("Mike"), 85);
}

#[test]
fn test_amount_near_the_largest_number_is_rejected_not_wrapped() {
    let mut mempool = Mempool::new();
    mempool.submit_transaction(invoke(1, "Alice", "Bob", u64::MAX, 0));
    match mempool.validate_next() {
        Validation::Rejected(_, reason) => {
            assert_eq!(reason, Rejection::InsufficientTransferFunds)
        }
        _ => panic!("no balance covers the largest amount and a fee"),
    }
    assert_eq!(mempool.get_balance("Alice"), 200);
}

#[test]
fn test_rejection_for_funds_blocks_resubmission() {
    let mut mempool = Mempool::new();
    let tx = invoke(1, "Mark", "Bob", 50, 0);
    let hash = tx.get_hash();
    assert!(!mempool.is_rejected(&hash));
    assert!(mempool.submit_transaction(tx.clone()));
    match mempool.validate_next() {
        Validation::Rejected(_, reason) => assert_eq!(reason, Rejection::InsufficientFeeFunds),
        _ => panic!("Mark holds nothing"),
    }
    assert!(mempool.is_rejected(&hash));

    assert!(!mempool.submit_transaction(tx.clone()));
    assert_eq!(mempool.pending(), 0);

    let mut same_identity = invoke(1, "Mark", "Cyndie", 50, 0);
    same_identity.fee = 0;
    assert!(!mempool.submit_transaction(same_identity));
    assert_eq!(mempool.pending(), 0);

    assert!(mempool.submit_transaction(invoke(2, "Mark", "Bob", 50, 0)));
    assert_eq!(mempool.pending(), 1);
}

#[test]
fn test_nonce_mismatch_is_dropped_but_not_blocked() {
    let mut mempool = Mempool::new();
    let tx = invoke(1, "Alice", "Bob", 10, 3);
    let hash = tx.get_hash();
    mempool.submit_transaction(tx.clone());
    match mempool.validate_next() {
        Validation::Rejected(_, reason) => assert_eq!(reason, Rejection::NonceMismatch),
        _ => panic!("Alice's nonce is 0"),
    }
    assert!(!mempool.is_rejected(&hash));
    assert_eq!(mempool.pending(), 0);
    assert_eq!(mempool.get_balance("Alice"), 200);
    assert_eq!(mempool.get_nonce("Alice"), 0);
    assert!(mempool.submit_transaction(tx));
    assert_eq!(mempool.pending(), 1);
}

#[test]
fn test_nonce_is_checked_before_funds() {
    let mut mempool = Mempool::new();
    let tx = invoke(1, "Mark", "Bob", 50, 1);
    let hash = tx.get_hash();
    mempool.submit_transaction(tx);
    match mempool.validate_next() {
        Validation::Rejected(_, reason) => assert_eq!(reason, Rejection::NonceMismatch),
        _ => panic!("Mark's nonce is 0"),
    }
    assert!(!mempool.is_rejected(&hash));
}

#[test]
fn test_validation_alone_moves_no_nonce() {
    let mut mempool = Mempool::new();
    mempool.submit_transaction(invoke(1, "Alice", "Bob", 10, 0));
    assert!(mempool.validate_transaction().is_some());
    assert_eq!(mempool.get_nonce("Alice"), 0);
    assert_eq!(mempool.get_balance("Alice"), 195);
    assert_eq!(mempool.get_balance("Bob"), 500);
}

#[test]
fn test_declare_and_deploy_pay_their_own_fees() {
    let mut mempool = Mempool::new();
    mempool.submit_transaction(Transaction::new(
        1,
        "Bob".to_string(),
        TransactionType::Declare,
        None,
        Some("0xabc".to_string()),
        None,
        0,
    ));
    mempool.submit_transaction(Transaction::new(
        2,
        "Cyndie".to_string(),
        TransactionType::DeployAccount,
        None,
        None,
        None,
        0,
    ));
    assert!(mempool.validate_transaction().is_some());
    assert!(mempool.validate_transaction().is_some());
    assert_eq!(mempool.get_balance("Bob"), 480);
    assert_eq!(mempool.get_balance("Cyndie"), 690);
}
