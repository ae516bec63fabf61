//! The ledger engine: hashing, blocks, wallets, transfers and the chain itself.

pub mod block;
pub mod block_chain;
pub mod block_chain_errors;
pub mod guarantees;
pub mod hasher;
pub mod invariants;
pub mod transaction;
pub mod wallet;
