use blockkick::network::message::{decode_frame, frame_message, NetworkMessage};
use blockkick::network::node::{inbound_peer_info, outbound_peer_info, NodeState};
use blockkick::network::peer_manager::{PeerInfo, PeerManager};
use blockkick::types::transaction::{CoinbaseData, TransferData};
use blockkick::types::{Block, Transaction, TransactionData, TransactionType};
use blockkick::Blockchain;

fn info(addr: &str, height: u64) -> PeerInfo {
    PeerInfo {
        addr: addr.to_string(),
        version: 1,
        user_agent: "ua".to_string(),
        start_height: height,
        is_outbound: false,
    }
}

#[test]
fn message_names() {
    assert_eq!(NetworkMessage::Ping.name(), "Ping");
    assert_eq!(NetworkMessage::Pong.name(), "Pong");
    assert_eq!(NetworkMessage::GetPeerInfo.name(), "GetPeerInfo");
    assert_eq!(NetworkMessage::GetBlocks { from_height: 0, count: None }.name(), "GetBlocks");
    assert_eq!(NetworkMessage::Blocks { blocks: vec![] }.name(), "Blocks");
    assert_eq!(
        NetworkMessage::PeerInfo { height: 1, best_block_hash: String::new() }.name(),
        "PeerInfo"
    );
    assert_eq!(
        NetworkMessage::HandshakeAck { version: 1, chain_hash: String::new(), start_height: 0 }.name(),
        "HandshakeAck"
    );
    assert_eq!(
        NetworkMessage::Handshake {
            version: 1,
            chain_hash: String::new(),
            user_agent: String::new(),
            start_height: 0
        }
        .name(),
        "Handshake"
    );
    assert_eq!(NetworkMessage::Block { block: Block::genesis() }.name(), "Block");
}

#[test]
fn frame_has_big_endian_length_prefix() {
    let framed = frame_message(b"hello");
    assert_eq!(framed, vec![0, 0, 0, 5, b'h', b'e', b'l', b'l', b'o']);
    let big = vec![7u8; 0x0102];
    let framed = frame_message(&big);
    assert_eq!(&framed[..4], &[0, 0, 1, 2]);
    assert_eq!(framed.len(), 4 + 0x0102);
}

#[test]
fn decode_frame_waits_for_complete_frames() {
    let framed = frame_message(b"abc");
    for k in 0..framed.len() {
        assert_eq!(decode_frame(&framed[..k]), None);
    }
    assert_eq!(decode_frame(&framed), Some(7));
    let mut two = framed.clone();
    two.extend_from_slice(&frame_message(b"de"));
    assert_eq!(decode_frame(&two), Some(7));
    assert_eq!(&two[4..7], b"abc");
    assert_eq!(decode_frame(&two[7..]), Some(6));
    assert_eq!(decode_frame(&[0, 0, 0, 0]), Some(4));
}

#[test]
fn peer_registry_read_after_write() {
    let mut pm = PeerManager::new("genesis".to_string());
    assert_eq!(pm.count(), 0);
    pm.register("1.2.3.4:1".to_string(), info("1.2.3.4:1", 5));
    pm.register("1.2.3.4:2".to_string(), info("1.2.3.4:2", 6));
    assert_eq!(pm.count(), 2);
    assert_eq!(pm.get_peer_height(&"1.2.3.4:1".to_string()), Some(5));
    // Registering again replaces the entry.
    pm.register("1.2.3.4:1".to_string(), info("1.2.3.4:1", 9));
    assert_eq!(pm.count(), 2);
    assert_eq!(pm.get_peer_height(&"1.2.3.4:1".to_string()), Some(9));
    pm.update_peer_info(&"1.2.3.4:2".to_string(), 3, "other".to_string(), 42);
    assert_eq!(pm.get_peer_height(&"1.2.3.4:2".to_string()), Some(42));
    pm.update_peer_info(&"9.9.9.9:9".to_string(), 3, "x".to_string(), 1);
    assert_eq!(pm.count(), 2);
    let removed = pm.remove(&"1.2.3.4:2".to_string()).unwrap();
    assert_eq!(removed.start_height, 42);
    assert_eq!(removed.user_agent, "other");
    assert_eq!(removed.version, 3);
    assert!(pm.remove(&"1.2.3.4:2".to_string()).is_none());
    assert!(!pm.has_peer(&"1.2.3.4:2".to_string()));
    assert!(pm.has_peer(&"1.2.3.4:1".to_string()));
    assert_eq!(pm.count(), 1);
}

#[test]
fn broadcast_targets_every_peer_but_the_excluded_one() {
    let mut pm = PeerManager::new("g".to_string());
    for a in ["a:1", "b:2", "c:3"] {
        pm.register(a.to_string(), info(a, 0));
    }
    let mut all = pm.broadcast(None);
    all.sort();
    assert_eq!(all, vec!["a:1".to_string(), "b:2".to_string(), "c:3".to_string()]);
    let mut some = pm.broadcast(Some(&"b:2".to_string()));
    some.sort();
    assert_eq!(some, vec!["a:1".to_string(), "c:3".to_string()]);
}

#[test]
fn check_chain_compares_with_genesis_hash() {
    let pm = PeerManager::new("abc".to_string());
    assert!(pm.check_chain("abc"));
    assert!(!pm.check_chain("abd"));
}

fn node() -> NodeState {
    let chain = Blockchain::new();
    let hash = chain.get_latest_block().unwrap().calculate_hash();
    NodeState::new(hash, chain)
}

#[test]
fn handshake_is_checked_and_acknowledged() {
    let mut st = node();
    let peer = "10.0.0.1:3001".to_string();
    st.peer_manager.register(peer.clone(), inbound_peer_info(peer.clone()));
    let bad = NetworkMessage::Handshake {
        version: 1,
        chain_hash: "nope".to_string(),
        user_agent: "x".to_string(),
        start_height: 3,
    };
    assert_eq!(st.process_message(bad, &peer, false).err(), Some("Incompatible network".to_string()));
    let good = NetworkMessage::Handshake {
        version: 2,
        chain_hash: st.chain_hash.clone(),
        user_agent: "peer/1".to_string(),
        start_height: 7,
    };
    let out = st.process_message(good, &peer, false).unwrap();
    assert!(out.handshake_done);
    assert!(out.relay.is_none());
    match out.reply {
        Some(NetworkMessage::HandshakeAck { version, chain_hash, start_height }) => {
            assert_eq!(version, 1);
            assert_eq!(chain_hash, st.chain_hash);
            assert_eq!(start_height, 1);
        },
        _ => panic!("expected an acknowledgement"),
    }
    assert_eq!(st.peer_manager.get_peer_height(&peer), Some(7));
}

#[test]
fn handshake_ack_records_peer_and_completes() {
    let mut st = node();
    let peer = "10.0.0.2:3001".to_string();
    st.peer_manager.register(peer.clone(), outbound_peer_info(peer.clone(), 1));
    let foreign = NetworkMessage::HandshakeAck { version: 4, chain_hash: "other".to_string(), start_height: 12 };
    assert_eq!(st.process_message(foreign, &peer, false).err(), Some("Incompatible network".to_string()));
    assert_eq!(st.peer_manager.get_peer_height(&peer), Some(1));
    let ack = NetworkMessage::HandshakeAck { version: 4, chain_hash: st.chain_hash.clone(), start_height: 12 };
    let out = st.process_message(ack, &peer, false).unwrap();
    assert!(out.handshake_done && out.reply.is_none() && out.relay.is_none());
    assert_eq!(st.peer_manager.get_peer_height(&peer), Some(12));
}

#[test]
fn transactions_are_relayed_only_after_handshake() {
    let mut st = node();
    let peer = "p:1".to_string();
    let tx = Transaction::new(
        TransactionType::Transfer,
        Some("a".to_string()),
        Some("b".to_string()),
        TransactionData::Transfer(TransferData { amount: 3, message: String::new() }),
        0,
        None,
    );
    let out = st.process_message(NetworkMessage::Tx { tx: tx.clone() }, &peer, false).unwrap();
    assert!(out.relay.is_none() && !out.handshake_done);
    let out = st.process_message(NetworkMessage::Tx { tx: tx.clone() }, &peer, true).unwrap();
    match out.relay {
        Some(NetworkMessage::Tx { tx: relayed }) => assert_eq!(relayed.id, tx.id),
        _ => panic!("expected a relay"),
    }
}

#[test]
fn accepted_blocks_are_relayed_and_others_are_not() {
    let mut st = node();
    let peer = "p:1".to_string();
    let genesis = Block::genesis();
    let cb = |h: u64| {
        Transaction::new(
            TransactionType::Coinbase,
            None,
            Some("m".to_string()),
            TransactionData::Coinbase(CoinbaseData { reward: 50, block_height: h }),
            0,
            None,
        )
    };
    let b1 = Block::new(1, genesis.calculate_hash(), vec![cb(1)], 0);
    let out = st.process_message(NetworkMessage::Block { block: b1.clone() }, &peer, false).unwrap();
    assert!(out.relay.is_none());
    assert_eq!(st.height(), 1);
    let out = st.process_message(NetworkMessage::Block { block: b1.clone() }, &peer, true).unwrap();
    match out.relay {
        Some(NetworkMessage::Block { block }) => assert_eq!(block.calculate_hash(), b1.calculate_hash()),
        _ => panic!("expected a relay"),
    }
    assert_eq!(st.height(), 2);
    let fork = Block::new(1, genesis.calculate_hash(), vec![cb(1), cb(2)], 0);
    let out = st.process_message(NetworkMessage::Block { block: fork }, &peer, true).unwrap();
    assert!(out.relay.is_none());
}

#[test]
fn ping_gets_pong_and_others_nothing() {
    let mut st = node();
    let peer = "p:1".to_string();
    let out = st.process_message(NetworkMessage::Ping, &peer, false).unwrap();
    assert!(matches!(out.reply, Some(NetworkMessage::Pong)));
    let out = st.process_message(NetworkMessage::Pong, &peer, true).unwrap();
    assert!(out.reply.is_none() && out.relay.is_none() && out.handshake_done);
    let out = st.process_message(NetworkMessage::GetPeerInfo, &peer, false).unwrap();
    assert!(out.reply.is_none() && !out.handshake_done);
}

#[test]
fn get_blocks_answers_with_the_blocks_it_has() {
    let mut st = node();
    let peer = "p:1".to_string();
    let genesis = Block::genesis();
    let out = st
        .process_message(NetworkMessage::GetBlocks { from_height: 0, count: None }, &peer, false)
        .unwrap();
    match out.reply {
        Some(NetworkMessage::Blocks { blocks }) => {
            assert_eq!(blocks.len(), 1);
            assert_eq!(blocks[0].calculate_hash(), genesis.calculate_hash());
        },
        _ => panic!("expected blocks"),
    }
    let out = st
        .process_message(NetworkMessage::GetBlocks { from_height: 1, count: Some(5) }, &peer, false)
        .unwrap();
    assert!(out.reply.is_none());
    let out = st
        .process_message(NetworkMessage::GetBlocks { from_height: 0, count: Some(0) }, &peer, false)
        .unwrap();
    assert!(out.reply.is_none());
}

#[test]
fn own_handshake_names_this_node() {
    let st = node();
    match st.handshake() {
        NetworkMessage::Handshake { version, chain_hash, user_agent, start_height } => {
            assert_eq!(version, 1);
            assert_eq!(chain_hash, st.chain_hash);
            assert_eq!(user_agent, "BlockKick/0.4.0");
            assert_eq!(start_height, 1);
        },
        _ => panic!("expected a handshake"),
    }
}
