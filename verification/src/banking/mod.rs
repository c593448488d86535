//! The UTXO engine: coin selection, transfers, minting and defragmentation.
pub mod utxo;
pub mod transfer;
pub mod defrag;
pub mod mint;
