use blockkick::types::transaction::CoinbaseData;
use blockkick::types::{Block, Transaction, TransactionData, TransactionType};
use blockkick::Blockchain;

fn coinbase(height: u64) -> Transaction {
    Transaction::new(
        TransactionType::Coinbase,
        None,
        Some("m".to_string()),
        TransactionData::Coinbase(CoinbaseData { reward: 50, block_height: height }),
        0,
        None,
    )
}

#[test]
fn add_block_errors() {
    let mut chain = Blockchain::new();
    let tip = chain.get_latest_block().unwrap().calculate_hash();
    let wrong_parent = Block::new(1, "a".repeat(64), vec![coinbase(1)], 0);
    assert_eq!(chain.add_block(wrong_parent), Err("Invalid previous hash".to_string()));
    let wrong_index = Block::new(2, tip.clone(), vec![coinbase(1)], 0);
    assert_eq!(chain.add_block(wrong_index), Err("Invalid block index".to_string()));
    let mut invalid = Block::new(1, tip.clone(), vec![coinbase(1)], 0);
    invalid.transactions[0].timestamp = 99;
    assert_eq!(chain.add_block(invalid), Err("Invalid block".to_string()));
    assert_eq!(chain.height(), 1);
    let mut empty = Blockchain::from_blocks(vec![]);
    assert_eq!(empty.add_block(Block::genesis()), Err("Empty chain".to_string()));
    let good = Block::new(1, tip, vec![coinbase(1)], 0);
    assert_eq!(chain.add_block(good), Ok(()));
    assert_eq!(chain.height(), 2);
}

#[test]
fn get_block_by_height() {
    let chain = Blockchain::new();
    assert!(chain.get_block(0).is_some());
    assert!(chain.get_block(1).is_none());
    assert!(Blockchain::from_blocks(vec![]).get_latest_block().is_none());
}

#[test]
fn valid_chain_stays_valid_after_add() {
    let mut chain = Blockchain::new();
    assert!(chain.validate_chain());
    for h in 1..4u64 {
        let tip = chain.get_latest_block().unwrap().calculate_hash();
        chain.add_block(Block::new(h, tip, vec![coinbase(h)], 0)).unwrap();
        assert!(chain.validate_chain());
    }
}
