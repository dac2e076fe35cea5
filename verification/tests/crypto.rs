use blockkick::crypto::hash::hash_hex;
use blockkick::crypto::signature::{sign_data, verify_signature};
use blockkick::state::project::Project;
use blockkick::types::transaction::CoinbaseData;
use blockkick::types::{Block, Transaction, TransactionData, TransactionType};
use ed25519_dalek::{Signer, SigningKey};
use sha2::{Digest, Sha256};

fn sha_hex(data: &[u8]) -> String {
    Sha256::digest(data).iter().map(|b| format!("{:02x}", b)).collect()
}

#[test]
fn hash_hex_known_value() {
    assert_eq!(hash_hex(b"abc"), "ba7816bf8f01cfea414140de5dae2223b00361a396177a9cb410ff61f20015ad");
    assert_eq!(hash_hex(b""), sha_hex(b""));
}

#[test]
fn transaction_id_hashes_its_canonical_bytes() {
    let tx = Transaction::new(
        TransactionType::Coinbase,
        None,
        Some("ab".to_string()),
        TransactionData::Coinbase(CoinbaseData { reward: 50, block_height: 2 }),
        3,
        None,
    );
    let mut pre = vec![0u8];
    pre.push(0);
    pre.push(1);
    pre.extend_from_slice(&2u64.to_be_bytes());
    pre.extend_from_slice(b"ab");
    pre.push(0);
    pre.extend_from_slice(&50u64.to_be_bytes());
    pre.extend_from_slice(&2u64.to_be_bytes());
    pre.extend_from_slice(&3u64.to_be_bytes());
    assert_eq!(tx.id_preimage(), pre);
    assert_eq!(tx.id, sha_hex(&pre));
}

#[test]
fn block_hash_and_merkle_root_exact() {
    let cb = |h: u64| {
        Transaction::new(
            TransactionType::Coinbase,
            None,
            Some("m".to_string()),
            TransactionData::Coinbase(CoinbaseData { reward: 50, block_height: h }),
            0,
            None,
        )
    };
    let (a, b, c) = (cb(1), cb(2), cb(3));
    let ab = sha_hex(format!("{}{}", a.id, b.id).as_bytes());
    assert_eq!(Block::calculate_merkle_root(&vec![a.clone(), b.clone()]), ab);
    let cc = sha_hex(format!("{}{}", c.id, c.id).as_bytes());
    let root3 = sha_hex(format!("{}{}", ab, cc).as_bytes());
    assert_eq!(Block::calculate_merkle_root(&vec![a.clone(), b.clone(), c.clone()]), root3);
    let block = Block::new(4, "p".to_string(), vec![a.clone()], 9);
    let mut pre = Vec::new();
    pre.extend_from_slice(&4u64.to_be_bytes());
    pre.extend_from_slice(&1u64.to_be_bytes());
    pre.extend_from_slice(b"p");
    pre.extend_from_slice(&64u64.to_be_bytes());
    pre.extend_from_slice(a.id.as_bytes());
    pre.extend_from_slice(&9u64.to_be_bytes());
    assert_eq!(block.header_bytes(), pre);
    assert_eq!(block.calculate_hash(), sha_hex(&pre));
}

#[test]
fn signature_round_trip() {
    // The signature is the one ed25519-dalek makes with the same key.
    let k = SigningKey::from_bytes(&[3u8; 32]);
    assert_eq!(sign_data(&k.to_bytes(), b"m"), hex::encode(k.sign(b"m").to_bytes()));
    let key = SigningKey::from_bytes(&[7u8; 32]);
    let public = hex::encode(key.verifying_key().to_bytes());
    let sig = sign_data(&key.to_bytes(), b"payload");
    assert_eq!(sig, sign_data(&key.to_bytes(), b"payload"));
    assert!(sig.chars().all(|c| c.is_ascii_digit() || ('a'..='f').contains(&c)));
    let other_key = SigningKey::from_bytes(&[8u8; 32]);
    assert_ne!(sig, sign_data(&other_key.to_bytes(), b"payload"));
    assert_eq!(sig.len(), 128);
    assert!(verify_signature(&public, &sig, b"payload"));
    assert!(verify_signature(&public.to_uppercase(), &sig.to_uppercase(), b"payload"));
    assert!(!verify_signature(&public, &sig, b"other"));
}

#[test]
fn signature_rejects_malformed_text() {
    let key = SigningKey::from_bytes(&[1u8; 32]);
    let public = hex::encode(key.verifying_key().to_bytes());
    let sig = sign_data(&key.to_bytes(), b"x");
    assert!(!verify_signature("zz", &sig, b"x"));
    assert!(!verify_signature(&public[..62], &sig, b"x"));
    assert!(!verify_signature(&public, &sig[..126], b"x"));
    assert!(!verify_signature(&public, "0", b"x"));
    assert!(!verify_signature(&public, &format!("{}g", &sig[..127]), b"x"));
    // 32 hex bytes of some other public key.
    let other_public = format!("02{}", "00".repeat(31));
    assert!(!verify_signature(&other_public, &sig, b"x"));
}

#[test]
fn project_donations_only_before_deadline() {
    let p = Project::new(
        "id".to_string(),
        "n".to_string(),
        "d".to_string(),
        1000,
        500,
        "w".to_string(),
    );
    assert_eq!(p.raised_amount, 0);
    assert!(p.backers.is_empty());
    assert!(p.can_accept_donations(499));
    assert!(!p.can_accept_donations(500));
}
