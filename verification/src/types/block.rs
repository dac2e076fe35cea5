//! Blocks, their hash and the Merkle root of their transactions.

use vstd::prelude::*;
use vstd::utf8::encode_utf8;
use crate::consensus::BLOCK_REWARD;
use crate::crypto::bytes::{push_bytes, push_text, push_u64_be, text_field, u64_be};
use crate::crypto::hash::{hash_hex, hash_text};
use crate::types::transaction::{
    tx_id, CoinbaseData, Transaction, TransactionData, TransactionType, TransactionView,
};

verus! {

/// The hashed part of a block.
#[derive(Debug, Clone)]
pub struct BlockHeader {
    pub index: u64,
    pub prev_hash: String,
    pub merkle_root: String,
    pub nonce: u64,
}

/// A block: its header and its transactions, the coinbase first.
#[derive(Debug, Clone)]
pub struct Block {
    pub header: BlockHeader,
    pub transactions: Vec<Transaction>,
}

/// The view of a block: its texts as character sequences.
pub struct BlockView {
    pub index: u64,
    pub prev_hash: Seq<char>,
    pub merkle_root: Seq<char>,
    pub nonce: u64,
    pub transactions: Seq<TransactionView>,
}

impl View for Block {
    type V = BlockView;

    open spec fn view(&self) -> BlockView {
        BlockView {
            index: self.header.index,
            prev_hash: self.header.prev_hash@,
            merkle_root: self.header.merkle_root@,
            nonce: self.header.nonce,
            transactions: self.transactions@.map_values(|t: Transaction| t@),
        }
    }
}

/// The bytes that a block hash covers.
pub open spec fn header_preimage(h: BlockHeader) -> Seq<u8> {
    u64_be(h.index) + text_field(h.prev_hash@) + text_field(h.merkle_root@) + u64_be(h.nonce)
}

/// The hash of a block: the hex SHA-256 of its header.
pub open spec fn block_hash(b: Block) -> Seq<char> {
    hash_text(header_preimage(b.header))
}

/// The parent of two Merkle nodes: the hash of their texts one after the other.
pub open spec fn pair_hash(a: Seq<char>, b: Seq<char>) -> Seq<char> {
    hash_text(encode_utf8(a) + encode_utf8(b))
}

/// One level up a Merkle tree; an odd last node is paired with itself.
pub open spec fn merkle_level(hs: Seq<Seq<char>>) -> Seq<Seq<char>> {
    Seq::new(
        ((hs.len() + 1) / 2) as nat,
        |i: int|
            pair_hash(
                hs[2 * i],
                if 2 * i + 1 < hs.len() {
                    hs[2 * i + 1]
                } else {
                    hs[2 * i]
                },
            ),
    )
}

/// The Merkle root of a list of leaves: the hash of nothing for no leaves,
/// the leaf itself for one.
pub open spec fn merkle_root_of(hs: Seq<Seq<char>>) -> Seq<char>
    decreases hs.len(),
{
    if hs.len() == 0 {
        hash_text(Seq::empty())
    } else if hs.len() == 1 {
        hs[0]
    } else {
        merkle_root_of(merkle_level(hs))
    }
}

/// The identifiers that transactions carry.
pub open spec fn tx_ids(txs: Seq<Transaction>) -> Seq<Seq<char>> {
    txs.map_values(|t: Transaction| t.id@)
}

/// The views of a list of texts.
pub open spec fn texts(v: Seq<String>) -> Seq<Seq<char>> {
    v.map_values(|s: String| s@)
}

/// A block is valid when its Merkle root matches its transactions and every
/// transaction carries its own identifier.
pub open spec fn block_valid(b: Block) -> bool {
    &&& b.header.merkle_root@ == merkle_root_of(tx_ids(b.transactions@))
    &&& forall|i: int|
        0 <= i < b.transactions@.len() ==> #[trigger] b.transactions@[i].id@ == tx_id(
            b.transactions@[i],
        )
}

/// What the genesis block holds: index 0, a parent of 64 zeros, nonce 0, and
/// one coinbase at time 0 paying the block reward at height 0 to `genesis`,
/// unsigned; its identifiers and Merkle root are those that make it valid.
pub open spec fn is_genesis(b: Block) -> bool {
    &&& b.header.index == 0
    &&& b.header.prev_hash@ == zero_hash()
    &&& b.header.nonce == 0
    &&& b.transactions@.len() == 1
    &&& b.transactions@[0].tx_type == TransactionType::Coinbase
    &&& b.transactions@[0].from is None
    &&& b.transactions@[0].to matches Some(t) && t@ == "genesis"@
    &&& b.transactions@[0].data matches TransactionData::Coinbase(c) && c.reward == BLOCK_REWARD
        && c.block_height == 0
    &&& b.transactions@[0].timestamp == 0
    &&& b.transactions@[0].signature is None
    &&& block_valid(b)
}

/// The 64 zeros that the genesis block names as its parent.
pub open spec fn zero_hash() -> Seq<char> {
    Seq::new(64, |i: int| '0')
}

fn next_level(level: &Vec<String>) -> (up: Vec<String>)
    ensures
        texts(up@) == merkle_level(texts(level@)),
{
    let n = level.len();
    let pairs = n / 2 + n % 2;
    let ghost hs = texts(level@);
    let mut up: Vec<String> = Vec::new();
    let mut j: usize = 0;
    while j < pairs
        invariant
            n == level@.len(),
            hs == texts(level@),
            pairs == (n + 1) / 2,
            j <= pairs,
            up@.len() == j,
            forall|k: int| 0 <= k < j ==> #[trigger] up@[k]@ == merkle_level(hs)[k],
        decreases pairs - j,
    {
        let left = &level[2 * j];
        let right = if 2 * j + 1 < n {
            &level[2 * j + 1]
        } else {
            &level[2 * j]
        };
        let mut bytes: Vec<u8> = Vec::new();
        push_bytes(&mut bytes, left.as_str().as_bytes());
        push_bytes(&mut bytes, right.as_str().as_bytes());
        let h = hash_hex(bytes.as_slice());
        up.push(h);
        j = j + 1;
    }
    assert(texts(up@) =~= merkle_level(hs));
    up
}

impl Block {
    /// A copy with the same view.
    pub fn duplicate(&self) -> (r: Block)
        ensures
            r@ == self@,
    {
        let n = self.transactions.len();
        let mut txs: Vec<Transaction> = Vec::new();
        let mut i: usize = 0;
        while i < n
            invariant
                n == self.transactions@.len(),
                i <= n,
                txs@.len() == i,
                forall|k: int| 0 <= k < i ==> #[trigger] txs@[k]@ == self.transactions@[k]@,
            decreases n - i,
        {
            txs.push(self.transactions[i].duplicate());
            i = i + 1;
        }
        let r = Block {
            header: BlockHeader {
                index: self.header.index,
                prev_hash: self.header.prev_hash.clone(),
                merkle_root: self.header.merkle_root.clone(),
                nonce: self.header.nonce,
            },
            transactions: txs,
        };
        assert(r@.transactions =~= self@.transactions);
        r
    }

    /// Builds a block over `transactions`, computing its Merkle root.
    pub fn new(index: u64, prev_hash: String, transactions: Vec<Transaction>, nonce: u64) -> (b:
        Block)
        ensures
            b.header.index == index,
            b.header.prev_hash == prev_hash,
            b.header.nonce == nonce,
            b.transactions == transactions,
            b.header.merkle_root@ == merkle_root_of(tx_ids(transactions@)),
    {
        let merkle_root = Block::calculate_merkle_root(&transactions);
        Block { header: BlockHeader { index, prev_hash, merkle_root, nonce }, transactions }
    }

    /// The Merkle root of the identifiers of `transactions`.
    pub fn calculate_merkle_root(transactions: &Vec<Transaction>) -> (root: String)
        ensures
            root@ == merkle_root_of(tx_ids(transactions@)),
    {
        let n = transactions.len();
        if n == 0 {
            let empty: Vec<u8> = Vec::new();
            return hash_hex(empty.as_slice());
        }
        let mut level: Vec<String> = Vec::new();
        let mut i: usize = 0;
        while i < n
            invariant
                n == transactions@.len(),
                i <= n,
                level@.len() == i,
                forall|k: int| 0 <= k < i ==> #[trigger] level@[k]@ == transactions@[k].id@,
            decreases n - i,
        {
            level.push(transactions[i].id.clone());
            i = i + 1;
        }
        assert(texts(level@) =~= tx_ids(transactions@));
        while level.len() > 1
            invariant
                level@.len() >= 1,
                merkle_root_of(texts(level@)) == merkle_root_of(tx_ids(transactions@)),
            decreases level@.len(),
        {
            let ghost before = texts(level@);
            level = next_level(&level);
            assert(texts(level@).len() == level@.len());
            assert(merkle_root_of(before) == merkle_root_of(merkle_level(before)));
        }
        level[0].clone()
    }

    /// The bytes that the block hash covers.
    pub fn header_bytes(&self) -> (bytes: Vec<u8>)
        ensures
            bytes@ == header_preimage(self.header),
    {
        let mut out: Vec<u8> = Vec::new();
        push_u64_be(&mut out, self.header.index);
        push_text(&mut out, self.header.prev_hash.as_str());
        push_text(&mut out, self.header.merkle_root.as_str());
        push_u64_be(&mut out, self.header.nonce);
        assert(out@ =~= header_preimage(self.header));
        out
    }

    /// The hash of this block.
    pub fn calculate_hash(&self) -> (h: String)
        ensures
            h@ == block_hash(*self),
    {
        let bytes = self.header_bytes();
        hash_hex(bytes.as_slice())
    }

    /// Whether the Merkle root matches the transactions and every transaction
    /// carries its own identifier.
    pub fn validate(&self) -> (ok: bool)
        ensures
            ok == block_valid(*self),
    {
        let root = Block::calculate_merkle_root(&self.transactions);
        if self.header.merkle_root != root {
            return false;
        }
        let n = self.transactions.len();
        let mut i: usize = 0;
        while i < n
            invariant
                n == self.transactions@.len(),
                i <= n,
                forall|k: int|
                    0 <= k < i ==> #[trigger] self.transactions@[k].id@ == tx_id(
                        self.transactions@[k],
                    ),
            decreases n - i,
        {
            let id = self.transactions[i].calculate_id();
            if self.transactions[i].id != id {
                return false;
            }
            i = i + 1;
        }
        true
    }

    /// The first block of every chain: index 0, a parent of 64 zeros and one
    /// coinbase paying the block reward to `genesis`.
    pub fn genesis() -> (b: Block)
        ensures
            is_genesis(b),
    {
        let coinbase = Transaction::new(
            TransactionType::Coinbase,
            None,
            Some("genesis".to_owned()),
            TransactionData::Coinbase(CoinbaseData { reward: BLOCK_REWARD, block_height: 0 }),
            0,
            None,
        );
        let mut txs: Vec<Transaction> = Vec::new();
        txs.push(coinbase);
        let zeros = "0000000000000000000000000000000000000000000000000000000000000000";
        proof {
            reveal_strlit("0000000000000000000000000000000000000000000000000000000000000000");
        }
        assert(zeros@ =~= zero_hash());
        let b = Block::new(0, zeros.to_owned(), txs, 0);
        assert(block_valid(b));
        b
    }
}

} // verus!
