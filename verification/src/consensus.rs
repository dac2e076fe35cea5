use vstd::prelude::*;

verus! {

/// The reward that the coinbase transaction of every block must pay.
pub const BLOCK_REWARD: u64 = 50;

} // verus!
