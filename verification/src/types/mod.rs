//! Transactions and blocks.

pub mod block;
pub mod transaction;


pub use block::{Block, BlockHeader};
pub use transaction::{Transaction, TransactionData, TransactionType};
