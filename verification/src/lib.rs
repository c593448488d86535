//! Sentinel core: the verified rules of a UTXO-based central bank digital currency.
//!
//! The library decides; the server around it reads and writes the ledger database.
pub mod banking;
pub mod database;
pub mod middleware;
pub mod security;
pub mod api;
pub mod audit;
pub mod config;
pub mod discovery;
pub mod numeral;
