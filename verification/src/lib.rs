//! Fuzzy fingerprints of byte streams by context-triggered piecewise hashing,
//! and a similarity score between two such fingerprints.

pub mod block_size;
pub mod chars;
pub mod compare;
pub mod distance;
pub mod piece;
pub mod rolling;
pub mod signature;
pub mod signature_text;
pub mod track;
pub mod wrap;
