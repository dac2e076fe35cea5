use blockkick::types::transaction::{CoinbaseData, CreateProjectData, FundProjectData, TransferData};
use blockkick::types::{Block, Transaction, TransactionData, TransactionType};
use blockkick::Blockchain;

fn create_coinbase(miner: &str, reward: u64, block_height: u64) -> Transaction {
    Transaction::new(
        TransactionType::Coinbase,
        None,
        Some(miner.to_string()),
        TransactionData::Coinbase(CoinbaseData {
            reward,
            block_height,
        }),
        1234567890,
        None,
    )
}

fn create_transfer(from: &str, to: &str, amount: u64) -> Transaction {
    Transaction::new(
        TransactionType::Transfer,
        Some(from.to_string()),
        Some(to.to_string()),
        TransactionData::Transfer(TransferData {
            amount,
            message: "test".to_string(),
        }),
        1234567890,
        Some("signature".to_string()),
    )
}

fn create_project(creator: &str, project_id: &str) -> Transaction {
    Transaction::new(
        TransactionType::CreateProject,
        Some(creator.to_string()),
        None,
        TransactionData::CreateProject(CreateProjectData {
            project_id: project_id.to_string(),
            name: "Test Project".to_string(),
            description: "Integration test project".to_string(),
            goal_amount: 1000,
            deadline_timestamp: 9999999999,
            creator_wallet: creator.to_string(),
        }),
        1234567890,
        Some("signature".to_string()),
    )
}

fn create_fund_project(backer: &str, creator: &str, project_id: &str, amount: u64) -> Transaction {
    Transaction::new(
        TransactionType::FundProject,
        Some(backer.to_string()),
        Some(creator.to_string()),
        TransactionData::FundProject(FundProjectData {
            project_id: project_id.to_string(),
            amount,
            backer_note: "Support!".to_string(),
        }),
        1234567890,
        Some("signature".to_string()),
    )
}

#[test]
fn test_create_5_block_chain() {
    let mut chain = Blockchain::new();
    assert_eq!(chain.height(), 1);

    let prev_hash = chain.get_latest_block().unwrap().calculate_hash();
    let block1 = Block::new(
        1,
        prev_hash,
        vec![create_coinbase("alice", 100, 1)],
        0,
    );
    chain.add_block(block1).unwrap();
    assert_eq!(chain.height(), 2);

    let prev_hash = chain.get_latest_block().unwrap().calculate_hash();
    let block2 = Block::new(
        2,
        prev_hash,
        vec![
            create_coinbase("bob", 100, 2),
            create_transfer("alice", "charlie", 30),
        ],
        0,
    );
    chain.add_block(block2).unwrap();
    assert_eq!(chain.height(), 3);

    let prev_hash = chain.get_latest_block().unwrap().calculate_hash();
    let block3 = Block::new(
        3,
        prev_hash,
        vec![
            create_coinbase("dave", 50, 3),
            create_project("eve", "proj_game"),
            create_fund_project("bob", "eve", "proj_game", 25),
        ],
        0,
    );
    chain.add_block(block3).unwrap();
    assert_eq!(chain.height(), 4);

    let prev_hash = chain.get_latest_block().unwrap().calculate_hash();
    let block4 = Block::new(
        4,
        prev_hash,
        vec![
            create_coinbase("frank", 75, 4),
            create_transfer("charlie", "alice", 10),
            create_transfer("bob", "eve", 20),
        ],
        0,
    );
    chain.add_block(block4).unwrap();
    assert_eq!(chain.height(), 5);

    let prev_hash = chain.get_latest_block().unwrap().calculate_hash();
    let block5 = Block::new(
        5,
        prev_hash,
        vec![create_coinbase("grace", 60, 5)],
        0,
    );
    chain.add_block(block5).unwrap();
    assert_eq!(chain.height(), 6);

    assert!(chain.validate_chain(), "Chain should be valid");
}

#[test]
fn test_tamper_block_invalidates_chain() {
    let genesis = Block::genesis();
    
    let block1 = Block::new(
        1,
        genesis.calculate_hash(),
        vec![create_coinbase("miner_1", 50, 1)],
        0,
    );
    
    let block2 = Block::new(
        2,
        block1.calculate_hash(),
        vec![create_coinbase("miner_2", 50, 2)],
        0,
    );
    
    let block3 = Block::new(
        3,
        block2.calculate_hash(),
        vec![create_coinbase("miner_3", 50, 3)],
        0,
    );
    
    let block4 = Block::new(
        4,
        block3.calculate_hash(),
        vec![create_coinbase("miner_4", 50, 4)],
        0,
    );
    
    let block5 = Block::new(
        5,
        block4.calculate_hash(),
        vec![create_coinbase("miner_5", 50, 5)],
        0,
    );
    
    let mut chain = Blockchain::from_blocks(vec![
        genesis,
        block1,
        block2,
        block3,
        block4,
        block5,
    ]);

    assert_eq!(chain.height(), 6);
    assert!(chain.validate_chain(), "Chain should be valid before tampering");

    let blocks = chain.get_blocks();
    let mut tampered_block = blocks[3].clone();
    
    if let TransactionData::Coinbase(ref mut data) = tampered_block.transactions[0].data {
        data.reward = 999999;
        tampered_block.transactions[0].id = tampered_block.transactions[0].calculate_id();
    }

    chain.get_blocks_mut()[3] = tampered_block;

    assert!(!chain.validate_chain(), "Chain should be invalid after tampering");
}
