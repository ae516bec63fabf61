//! An in-memory, hash-linked ledger of transfers between password-protected
//! wallets, with proof-of-work mining of the pending transfers.

pub mod api;
pub mod blockchain;
