//! The two tables of the ledger: accounts and the append-only transaction log.

pub mod user;
pub mod transaction;
