//! Privacy-preserving asset transfer: anonymous records hidden in an
//! append-only Merkle accumulator, spent by revealing a nullifier.
//!
//! A holder of a transparent record (amount and asset type publicly visible,
//! or hidden behind a Pedersen commitment) can convert it into an anonymous
//! record — a commitment stored as a leaf of a versioned Merkle tree — and
//! later spend that anonymous record back into a transparent one without
//! revealing which leaf was spent.

pub mod accumulator;
pub mod address;
pub mod backend;
pub mod bytes;
pub mod curve;
pub mod elgamal;
pub mod errors;
pub mod keys;
pub mod memo;
pub mod mimc;
pub mod notes;
pub mod range_proof;
pub mod records;
pub mod transaction;
pub mod transparent;
