use starknet_simulator::transaction::{
    kind_name, status_name, Transaction, TransactionIds, TransactionStatus, TransactionType,
};

fn invoke(id: usize, sender: &str, receiver: &str, amount: u64, nonce: u64) -> Transaction {
    Transaction::new(
        id,
        sender.to_string(),
        TransactionType::Invoke,
        Some(receiver.to_string()),
        None,
        Some(amount),
        nonce,
    )
}

#[test]
fn test_new_transaction_is_received() {
    let tx = invoke(1, "Alice", "Bob", 10, 0);
    assert_eq!(tx.id, 1);
    assert_eq!(tx.sender, "Alice");
    assert_eq!(tx.receiver, Some("Bob".to_string()));
    assert_eq!(tx.contract_address, None);
    assert_eq!(tx.amount, Some(10));
    assert_eq!(tx.nonce, 0);
    assert_eq!(tx.tx_type, TransactionType::Invoke);
    assert_eq!(tx.status, TransactionStatus::Received);
    assert_eq!(tx.fee, 5);
}

#[test]
fn test_fee_follows_from_kind() {
    assert_eq!(Transaction::calculate_fee(&TransactionType::Invoke), 5);
    assert_eq!(Transaction::calculate_fee(&TransactionType::Declare), 20);
    assert_eq!(Transaction::calculate_fee(&TransactionType::DeployAccount), 10);
    let declare = Transaction::new(
        2,
        "Bob".to_string(),
        TransactionType::Declare,
        None,
        Some("0xabc".to_string()),
        None,
        0,
    );
    assert_eq!(declare.fee, 20);
    let deploy =
        Transaction::new(3, "Bob".to_string(), TransactionType::DeployAccount, None, None, None, 0);
    assert_eq!(deploy.fee, 10);
}

#[test]
fn test_hash_of_invoke_is_digest_of_its_identity() {
    let tx = invoke(1, "Alice", "Bob", 10, 0);
    assert_eq!(
        tx.get_hash(),
        "00b05575a3c24faf90724799c5dbe109a4b9d5db80c89e4d3691041bdfeee99e"
    );
}

#[test]
fn test_hash_of_declare_without_amount() {
    let tx = Transaction::new(
        7,
        "Bob".to_string(),
        TransactionType::Declare,
        None,
        Some("0xabc".to_string()),
        None,
        3,
    );
    assert_eq!(
        tx.get_hash(),
        "b422d0968236313098651fc82e91298f4d57ba3637fc86a573bcdc65400fc51d"
    );
}

#[test]
fn test_hash_of_sender_outside_ascii_and_large_nonce() {
    let tx = Transaction::new(
        9,
        "Zoë".to_string(),
        TransactionType::DeployAccount,
        None,
        None,
        None,
        u64::MAX - 1,
    );
    assert_eq!(
        tx.get_hash(),
        "310d37c8523e7347107244d9bc389a56d97ed9922e689f92b3a73f6321ef7e51"
    );
}

#[test]
fn test_same_fields_with_other_id_hash_differently() {
    let first = invoke(1, "Alice", "Bob", 10, 0);
    let second = invoke(2, "Alice", "Bob", 10, 0);
    assert_ne!(first.get_hash(), second.get_hash());
    assert_eq!(
        second.get_hash(),
        "8426b2f360b5390330f52581c010bb7892700d9b10ef5488927fbea6280f97b1"
    );
}

#[test]
fn test_hash_ignores_receiver_fee_and_status() {
    let tx = invoke(1, "Alice", "Bob", 10, 0);
    let mut other = invoke(1, "Alice", "Cyndie", 10, 0);
    other.fee = 99;
    other.update_status(TransactionStatus::Rejected);
    assert_eq!(tx.get_hash(), other.get_hash());
}

#[test]
fn test_update_status_changes_only_the_status() {
    let mut tx = invoke(4, "Alice", "Bob", 10, 2);
    tx.update_status(TransactionStatus::Validated);
    assert_eq!(tx.status, TransactionStatus::Validated);
    assert_eq!(tx.id, 4);
    assert_eq!(tx.sender, "Alice");
    assert_eq!(tx.amount, Some(10));
    assert_eq!(tx.nonce, 2);
    assert_eq!(tx.fee, 5);
}

#[test]
fn test_clone_keeps_every_field() {
    let mut tx = invoke(4, "Alice", "Bob", 10, 2);
    tx.update_status(TransactionStatus::Succeeded);
    let copy = tx.clone();
    assert_eq!(copy.id, tx.id);
    assert_eq!(copy.sender, tx.sender);
    assert_eq!(copy.receiver, tx.receiver);
    assert_eq!(copy.contract_address, tx.contract_address);
    assert_eq!(copy.amount, tx.amount);
    assert_eq!(copy.fee, tx.fee);
    assert_eq!(copy.nonce, tx.nonce);
    assert_eq!(copy.tx_type, tx.tx_type);
    assert_eq!(copy.status, tx.status);
}

#[test]
fn test_well_formed_needs_receiver_for_paid_invoke() {
    assert!(invoke(1, "Alice", "Bob", 10, 0).is_well_formed());
    let no_receiver = Transaction::new(
        1,
        "Alice".to_string(),
        TransactionType::Invoke,
        None,
        None,
        Some(10),
        0,
    );
    assert!(!no_receiver.is_well_formed());
    let no_amount =
        Transaction::new(1, "Alice".to_string(), TransactionType::Invoke, None, None, None, 0);
    assert!(no_amount.is_well_formed());
    let declare_with_amount = Transaction::new(
        1,
        "Alice".to_string(),
        TransactionType::Declare,
        None,
        None,
        Some(10),
        0,
    );
    assert!(declare_with_amount.is_well_formed());
}

#[test]
fn test_well_formed_needs_room_for_the_next_nonce() {
    assert!(invoke(1, "Alice", "Bob", 10, u64::MAX - 1).is_well_formed());
    assert!(!invoke(1, "Alice", "Bob", 10, u64::MAX).is_well_formed());
}

#[test]
fn test_ids_start_at_one_and_count_up() {
    let mut ids = TransactionIds::new();
    assert_eq!(ids.issue(), Some(1));
    assert_eq!(ids.issue(), Some(2));
    assert_eq!(ids.issue(), Some(3));
}

#[test]
fn test_names_of_kinds_and_statuses() {
    assert_eq!(kind_name(TransactionType::Declare), "Declare");
    assert_eq!(kind_name(TransactionType::Invoke), "Invoke");
    assert_eq!(kind_name(TransactionType::DeployAccount), "DeployAccount");
    assert_eq!(status_name(TransactionStatus::Received), "Received");
    assert_eq!(status_name(TransactionStatus::Rejected), "Rejected");
    assert_eq!(status_name(TransactionStatus::Validated), "Validated");
    assert_eq!(status_name(TransactionStatus::Executed), "Executed");
    assert_eq!(status_name(TransactionStatus::Reverted), "Reverted");
    assert_eq!(status_name(TransactionStatus::Succeeded), "Succeeded");
    assert_eq!(status_name(TransactionStatus::ProofGenerated), "ProofGenerated");
    assert_eq!(status_name(TransactionStatus::AcceptedOnL1), "AcceptedOnL1");
}
