//! Ledger state derived from the chain.

pub mod project;
