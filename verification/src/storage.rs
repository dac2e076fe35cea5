//! The block store: an append-only list of linked blocks.

use vstd::prelude::*;
use crate::types::block::{block_hash, block_valid, is_genesis, Block};
use crate::types::transaction::tx_id;

verus! {

/// The chain of blocks, genesis first.
pub struct Blockchain {
    blocks: Vec<Block>,
}

impl View for Blockchain {
    type V = Seq<Block>;

    closed spec fn view(&self) -> Seq<Block> {
        self.blocks@
    }
}

/// What appending `b` to `blocks` gives: the longer chain, or the reason for refusing.
pub open spec fn chain_add(blocks: Seq<Block>, b: Block) -> Result<Seq<Block>, Seq<char>> {
    if blocks.len() == 0 {
        Err("Empty chain"@)
    } else if b.header.prev_hash@ != block_hash(blocks.last()) {
        Err("Invalid previous hash"@)
    } else if b.header.index != blocks.len() {
        Err("Invalid block index"@)
    } else if !block_valid(b) {
        Err("Invalid block"@)
    } else {
        Ok(blocks.push(b))
    }
}

/// A chain is valid when every block is valid and sits at its own index, and
/// every block after the first names the hash of the one before it.
pub open spec fn chain_valid(blocks: Seq<Block>) -> bool {
    forall|i: int|
        0 <= i < blocks.len() ==> {
            &&& block_valid(#[trigger] blocks[i])
            &&& blocks[i].header.index == i
            &&& i > 0 ==> blocks[i].header.prev_hash@ == block_hash(blocks[i - 1])
        }
}

/// Appending a block never breaks a valid chain.
pub proof fn lemma_add_keeps_chain_valid(blocks: Seq<Block>, b: Block)
    requires
        chain_valid(blocks),
        chain_add(blocks, b) is Ok,
    ensures
        chain_valid(chain_add(blocks, b)->Ok_0),
{
    let nb = blocks.push(b);
    assert forall|i: int| 0 <= i < nb.len() implies {
        &&& block_valid(#[trigger] nb[i])
        &&& nb[i].header.index == i
        &&& i > 0 ==> nb[i].header.prev_hash@ == block_hash(nb[i - 1])
    } by {
        if i < blocks.len() {
            assert(nb[i] == blocks[i]);
            if i > 0 {
                assert(nb[i - 1] == blocks[i - 1]);
            }
        } else {
            assert(nb[i - 1] == blocks.last());
        }
    }
}

/// A block with a transaction, at any position, that does not carry the
/// identifier of its own contents is invalid, and so is every chain that holds
/// such a block.
pub proof fn lemma_tampered_transaction_invalidates(blocks: Seq<Block>, k: int, i: int)
    requires
        0 <= k < blocks.len(),
        0 <= i < blocks[k].transactions@.len(),
        blocks[k].transactions@[i].id@ != tx_id(blocks[k].transactions@[i]),
    ensures
        !block_valid(blocks[k]),
        !chain_valid(blocks),
{
    assert(!block_valid(blocks[k]));
}

impl Blockchain {
    /// A chain holding the genesis block only.
    pub fn new() -> (chain: Blockchain)
        ensures
            chain@.len() == 1,
            is_genesis(chain@[0]),
            chain_valid(chain@),
    {
        let mut blocks: Vec<Block> = Vec::new();
        blocks.push(Block::genesis());
        Blockchain { blocks }
    }

    /// A chain holding exactly `blocks`, as given.
    pub fn from_blocks(blocks: Vec<Block>) -> (chain: Blockchain)
        ensures
            chain@ == blocks@,
    {
        Blockchain { blocks }
    }

    /// The number of blocks.
    pub fn height(&self) -> (h: u64)
        ensures
            h == self@.len(),
    {
        self.blocks.len() as u64
    }

    /// All blocks, genesis first.
    pub fn get_blocks(&self) -> (blocks: &Vec<Block>)
        ensures
            blocks@ == self@,
    {
        &self.blocks
    }

    /// All blocks, for changing them in place.
    pub fn get_blocks_mut(&mut self) -> (blocks: &mut Vec<Block>)
        ensures
            blocks@ == old(self)@,
            final(self)@ == final(blocks)@,
    {
        &mut self.blocks
    }

    /// The last block, if any.
    pub fn get_latest_block(&self) -> (b: Option<&Block>)
        ensures
            self@.len() == 0 ==> b is None,
            self@.len() > 0 ==> b == Some(&self@.last()),
    {
        let n = self.blocks.len();
        if n == 0 {
            None
        } else {
            Some(&self.blocks[n - 1])
        }
    }

    /// The block at `height`, if the chain is that long.
    pub fn get_block(&self, height: u64) -> (b: Option<&Block>)
        ensures
            height < self@.len() ==> b == Some(&self@[height as int]),
            height >= self@.len() ==> b is None,
    {
        if height < self.blocks.len() as u64 {
            Some(&self.blocks[height as usize])
        } else {
            None
        }
    }

    /// Appends `block` when it extends the tip: it must name the tip's hash,
    /// carry the next index and be valid.
    pub fn add_block(&mut self, block: Block) -> (res: Result<(), String>)
        ensures
            match chain_add(old(self)@, block) {
                Ok(nb) => res is Ok && final(self)@ == nb,
                Err(e) => res matches Err(m) && m@ == e && final(self)@ == old(self)@,
            },
    {
        let n = self.blocks.len();
        if n == 0 {
            return Err("Empty chain".to_owned());
        }
        let tip_hash = self.blocks[n - 1].calculate_hash();
        if block.header.prev_hash != tip_hash {
            return Err("Invalid previous hash".to_owned());
        }
        if block.header.index != n as u64 {
            return Err("Invalid block index".to_owned());
        }
        if !block.validate() {
            return Err("Invalid block".to_owned());
        }
        self.blocks.push(block);
        Ok(())
    }

    /// Whether every block is valid, sits at its index and links to the one before.
    pub fn validate_chain(&self) -> (ok: bool)
        ensures
            ok == chain_valid(self@),
    {
        let n = self.blocks.len();
        let mut i: usize = 0;
        while i < n
            invariant
                n == self.blocks@.len(),
                i <= n,
                forall|k: int|
                    0 <= k < i ==> {
                        &&& block_valid(#[trigger] self.blocks@[k])
                        &&& self.blocks@[k].header.index == k
                        &&& k > 0 ==> self.blocks@[k].header.prev_hash@ == block_hash(
                            self.blocks@[k - 1],
                        )
                    },
            decreases n - i,
        {
            if !self.blocks[i].validate() {
                return false;
            }
            if self.blocks[i].header.index != i as u64 {
                return false;
            }
            if i > 0 {
                let prev = self.blocks[i - 1].calculate_hash();
                if self.blocks[i].header.prev_hash != prev {
                    return false;
                }
            }
            i = i + 1;
        }
        true
    }
}

} // verus!
