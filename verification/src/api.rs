//! What the ledger answers to the requests of a front end.

pub mod requests;
