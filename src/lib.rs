//! A ledger of named accounts: deposits, withdrawals, transfers and a
//! per-account transaction history, driven by an interactive session.

pub mod models;
pub mod ledger;
pub mod text;
pub mod amount;
pub mod clock;
pub mod app;
pub mod controllers;
