//! Peer-to-peer networking: fork resolution, messages and their framing.

pub mod fork_resolver;
pub mod message;
pub mod node;
pub mod peer_manager;
