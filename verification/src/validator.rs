//! Stand-alone validation of transactions, blocks and block links.

use vstd::prelude::*;
use crate::types::block::{block_hash, block_valid, Block};
use crate::types::transaction::{tx_id, Transaction};

verus! {

/// Validation rules for single items.
pub struct Validator;

impl Validator {
    /// Whether a transaction carries its own identifier.  Signed kinds are not
    /// checked against their signature here.
    pub fn validate_transaction(tx: &Transaction) -> (ok: bool)
        ensures
            ok == (tx.id@ == tx_id(*tx)),
    {
        if !tx.requires_signature() {
            return tx.id == tx.calculate_id();
        }
        let expected_id = tx.calculate_id();
        if tx.id != expected_id {
            return false;
        }
        true
    }

    /// Whether a block is valid on its own.
    pub fn validate_block(block: &Block) -> (ok: bool)
        ensures
            ok == block_valid(*block),
    {
        block.validate()
    }

    /// Whether `new_block` names `prev_block` as its parent.
    pub fn validate_chain(prev_block: &Block, new_block: &Block) -> (ok: bool)
        ensures
            ok == (new_block.header.prev_hash@ == block_hash(*prev_block)),
    {
        new_block.header.prev_hash == prev_block.calculate_hash()
    }
}

} // verus!
