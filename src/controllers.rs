//! The interactive session over a ledger.

pub mod app_controller;
