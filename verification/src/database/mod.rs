//! Rules around the ledger database: how stored settings and flags are read.
pub mod operations;
pub mod schema;
