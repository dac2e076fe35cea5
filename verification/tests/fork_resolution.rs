use blockkick::network::fork_resolver::{ForkResolver, ForkResult};
use blockkick::types::transaction::{CoinbaseData, TransferData};
use blockkick::types::{Block, Transaction, TransactionData, TransactionType};
use blockkick::Blockchain;

fn coinbase(miner: &str, reward: u64, height: u64) -> Transaction {
    Transaction::new(
        TransactionType::Coinbase,
        None,
        Some(miner.to_string()),
        TransactionData::Coinbase(CoinbaseData { reward, block_height: height }),
        1234567890,
        None,
    )
}

fn child_of(parent: &Block, index: u64, miner: &str) -> Block {
    Block::new(index, parent.calculate_hash(), vec![coinbase(miner, 50, index)], 0)
}

fn resolver() -> (ForkResolver, Block) {
    let chain = Blockchain::new();
    let genesis = chain.get_latest_block().unwrap().clone();
    (ForkResolver::new(chain), genesis)
}

#[test]
fn block_on_tip_is_accepted_on_main_chain() {
    let (mut r, genesis) = resolver();
    let b1 = child_of(&genesis, 1, "alice");
    assert_eq!(r.handle_block(b1.clone()), ForkResult::AcceptedMainChain);
    assert_eq!(r.blockchain().height(), 2);
    assert_eq!(
        r.blockchain().get_latest_block().unwrap().calculate_hash(),
        b1.calculate_hash()
    );
    assert!(r.blockchain().validate_chain());
}

#[test]
fn block_without_coinbase_first_fails_basic_validation() {
    let (mut r, genesis) = resolver();
    let transfer = Transaction::new(
        TransactionType::Transfer,
        Some("a".to_string()),
        Some("b".to_string()),
        TransactionData::Transfer(TransferData { amount: 1, message: String::new() }),
        0,
        None,
    );
    let b = Block::new(1, genesis.calculate_hash(), vec![transfer], 0);
    assert_eq!(r.handle_block(b), ForkResult::Rejected("Basic validation failed".to_string()));
    let empty = Block::new(1, genesis.calculate_hash(), vec![], 0);
    assert_eq!(r.handle_block(empty), ForkResult::Rejected("Basic validation failed".to_string()));
    assert_eq!(r.blockchain().height(), 1);
}

#[test]
fn wrong_reward_fails_basic_validation() {
    let (mut r, genesis) = resolver();
    let b = Block::new(1, genesis.calculate_hash(), vec![coinbase("m", 100, 1)], 0);
    assert_eq!(r.handle_block(b), ForkResult::Rejected("Basic validation failed".to_string()));
}

#[test]
fn wrong_merkle_root_fails_basic_validation() {
    let (mut r, genesis) = resolver();
    let mut b = child_of(&genesis, 1, "m");
    b.header.merkle_root = "0".repeat(64);
    assert_eq!(r.handle_block(b), ForkResult::Rejected("Basic validation failed".to_string()));
}

#[test]
fn unknown_parent_goes_to_orphan_pool_then_is_adopted() {
    let (mut r, genesis) = resolver();
    let b1 = child_of(&genesis, 1, "one");
    let b2 = child_of(&b1, 2, "two");
    let b3 = child_of(&b2, 3, "three");
    let expected = format!("Orphan (parent {} unknown)", b1.calculate_hash());
    assert_eq!(r.handle_block(b2.clone()), ForkResult::Rejected(expected));
    assert_eq!(r.orphan_count(), 1);
    assert_eq!(
        r.handle_block(b3.clone()),
        ForkResult::Rejected(format!("Orphan (parent {} unknown)", b2.calculate_hash()))
    );
    assert_eq!(r.orphan_count(), 2);
    // The missing parent arrives: both waiting blocks are connected in turn.
    assert_eq!(r.handle_block(b1), ForkResult::AcceptedMainChain);
    assert_eq!(r.orphan_count(), 0);
    assert_eq!(r.blockchain().height(), 4);
    assert_eq!(
        r.blockchain().get_latest_block().unwrap().calculate_hash(),
        b3.calculate_hash()
    );
    assert!(r.blockchain().validate_chain());
}

#[test]
fn block_on_older_block_is_a_fork_and_changes_nothing() {
    let (mut r, genesis) = resolver();
    let b1 = child_of(&genesis, 1, "one");
    assert_eq!(r.handle_block(b1), ForkResult::AcceptedMainChain);
    let rival = child_of(&genesis, 1, "rival");
    assert_eq!(r.handle_block(rival), ForkResult::AcceptedFork);
    assert_eq!(r.blockchain().height(), 2);
    assert_eq!(r.orphan_count(), 0);
}

#[test]
fn block_on_tip_with_wrong_index_is_refused_by_the_chain() {
    let (mut r, genesis) = resolver();
    let b = Block::new(5, genesis.calculate_hash(), vec![coinbase("m", 50, 5)], 0);
    assert_eq!(
        r.handle_block(b),
        ForkResult::Rejected("Add failed: Invalid block index".to_string())
    );
    assert_eq!(r.blockchain().height(), 1);
}

#[test]
fn orphan_that_fails_when_adopted_is_dropped() {
    let (mut r, genesis) = resolver();
    let b1 = child_of(&genesis, 1, "one");
    // Wrong index: it waits for b1, then the chain refuses it.
    let bad = Block::new(9, b1.calculate_hash(), vec![coinbase("x", 50, 9)], 0);
    assert!(matches!(r.handle_block(bad), ForkResult::Rejected(_)));
    assert_eq!(r.orphan_count(), 1);
    assert_eq!(r.handle_block(b1), ForkResult::AcceptedMainChain);
    assert_eq!(r.orphan_count(), 0);
    assert_eq!(r.blockchain().height(), 2);
}

#[test]
fn empty_chain_has_no_parent_for_anything() {
    let mut r = ForkResolver::new(Blockchain::from_blocks(vec![]));
    let g = Block::genesis();
    let b = child_of(&g, 1, "m");
    assert!(matches!(r.handle_block(b), ForkResult::Rejected(_)));
    assert_eq!(r.orphan_count(), 1);
}
