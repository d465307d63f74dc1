//! Verified core of an indexer for the Inscription Protocol: the byte framing
//! of inscriptions, hexadecimal and decimal text, the records written for
//! deployments and mints, the minting rules and the block synchronisation
//! cursor.

pub mod decimal;
pub mod hex_text;
pub mod text;
pub mod inscription;
pub mod records;
pub mod mint_rules;
pub mod sync;
