use blockkick::types::transaction::{
    CoinbaseData, Transaction, TransactionData, TransactionType, TransferData,
};
use blockkick::types::Block;
use blockkick::validator::Validator;

#[test]
fn test_validate_transaction_id() {
    let tx = Transaction::new(
        TransactionType::Transfer,
        Some("test_from".to_string()),
        Some("test_to".to_string()),
        TransactionData::Transfer(TransferData {
            amount: 100,
            message: "test".to_string(),
        }),
        1234567890,
        Some("signature".to_string()),
    );

    assert!(Validator::validate_transaction(&tx));
}

#[test]
fn test_validate_coinbase_transaction() {
    let tx = Transaction::new(
        TransactionType::Coinbase,
        None,
        Some("miner_address".to_string()),
        TransactionData::Coinbase(CoinbaseData {
            reward: 50,
            block_height: 100,
        }),
        1234567890,
        None,
    );

    assert!(Validator::validate_transaction(&tx));
}

#[test]
fn test_validate_block() {
    let transactions = vec![Transaction::new(
        TransactionType::Coinbase,
        None,
        Some("miner".to_string()),
        TransactionData::Coinbase(CoinbaseData {
            reward: 50,
            block_height: 0,
        }),
        1234567890,
        None,
    )];

    let block = Block::new(0, "0".repeat(64), transactions, 0);
    assert!(Validator::validate_block(&block));
}

#[test]
fn test_validate_genesis_block() {
    let genesis = Block::genesis();
    assert!(Validator::validate_block(&genesis));
}

#[test]
fn tampered_transaction_id_is_rejected() {
    let mut tx = Transaction::new(
        TransactionType::Transfer,
        Some("alice".to_string()),
        Some("bob".to_string()),
        TransactionData::Transfer(TransferData { amount: 10, message: "hi".to_string() }),
        7,
        Some("sig".to_string()),
    );
    assert!(Validator::validate_transaction(&tx));
    if let TransactionData::Transfer(ref mut data) = tx.data {
        data.amount = 11;
    }
    assert!(!Validator::validate_transaction(&tx));
}

#[test]
fn identifier_is_sixty_four_lowercase_hex_digits() {
    let tx = Transaction::new(
        TransactionType::Coinbase,
        None,
        Some("miner".to_string()),
        TransactionData::Coinbase(CoinbaseData { reward: 50, block_height: 1 }),
        0,
        None,
    );
    assert_eq!(tx.id.len(), 64);
    assert!(tx.id.chars().all(|c| c.is_ascii_digit() || ('a'..='f').contains(&c)));
    // The signature is not part of the identifier.
    let signed = Transaction::new(
        TransactionType::Coinbase,
        None,
        Some("miner".to_string()),
        TransactionData::Coinbase(CoinbaseData { reward: 50, block_height: 1 }),
        0,
        Some("anything".to_string()),
    );
    assert_eq!(tx.id, signed.id);
    // Every other field is.
    let later = Transaction::new(
        TransactionType::Coinbase,
        None,
        Some("miner".to_string()),
        TransactionData::Coinbase(CoinbaseData { reward: 50, block_height: 1 }),
        1,
        None,
    );
    assert_ne!(tx.id, later.id);
}

#[test]
fn requires_signature_for_every_kind_but_coinbase() {
    let coinbase = Transaction::new(
        TransactionType::Coinbase,
        None,
        Some("m".to_string()),
        TransactionData::Coinbase(CoinbaseData { reward: 50, block_height: 0 }),
        0,
        None,
    );
    assert!(!coinbase.requires_signature());
    let transfer = Transaction::new(
        TransactionType::Transfer,
        Some("a".to_string()),
        Some("b".to_string()),
        TransactionData::Transfer(TransferData { amount: 1, message: String::new() }),
        0,
        None,
    );
    assert!(transfer.requires_signature());
}

#[test]
fn validate_chain_checks_the_parent_hash() {
    let genesis = Block::genesis();
    let tx = Transaction::new(
        TransactionType::Coinbase,
        None,
        Some("m".to_string()),
        TransactionData::Coinbase(CoinbaseData { reward: 50, block_height: 1 }),
        0,
        None,
    );
    let child = Block::new(1, genesis.calculate_hash(), vec![tx.clone()], 0);
    assert!(Validator::validate_chain(&genesis, &child));
    let stranger = Block::new(1, "f".repeat(64), vec![tx], 0);
    assert!(!Validator::validate_chain(&genesis, &stranger));
}

#[test]
fn merkle_root_of_known_values() {
    // No transaction: the hash of nothing.
    assert_eq!(
        Block::calculate_merkle_root(&Vec::new()),
        "e3b0c44298fc1c149afbf4c8996fb92427ae41e4649b934ca495991b7852b855"
    );
    // One transaction: its identifier.
    let tx = Transaction::new(
        TransactionType::Coinbase,
        None,
        Some("m".to_string()),
        TransactionData::Coinbase(CoinbaseData { reward: 50, block_height: 1 }),
        0,
        None,
    );
    assert_eq!(Block::calculate_merkle_root(&vec![tx.clone()]), tx.id);
}

#[test]
fn genesis_block_contents() {
    let g = Block::genesis();
    assert_eq!(g.header.index, 0);
    assert_eq!(g.header.prev_hash, "0".repeat(64));
    assert_eq!(g.transactions.len(), 1);
    assert_eq!(g.transactions[0].tx_type, TransactionType::Coinbase);
    assert_eq!(g.transactions[0].to.as_deref(), Some("genesis"));
    assert_eq!(g.calculate_hash(), Block::genesis().calculate_hash());
}
