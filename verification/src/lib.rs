//! BlockKick: the verified core of a crowdfunding blockchain node.
//!
//! The library holds the chain data model and its hashing, block and
//! transaction validation, fork resolution with an orphan pool, the peer
//! registry, the wire framing of network messages, the decisions a node takes
//! on each received message, and the command-line argument rules.

pub mod consensus;
pub mod crypto;

pub mod types;
pub mod storage;
pub mod network;
pub mod state;
pub mod validator;

pub use storage::Blockchain;
pub mod config;
