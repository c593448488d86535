//! Forensic integrity: the hash chain over the transaction log.
pub mod forensics;
