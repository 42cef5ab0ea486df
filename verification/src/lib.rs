//! Privacy-preserving spend verification.
//!
//! A spend of a private note is checked without disclosing who spends, how the
//! amount is hidden, or which note is consumed: the only values that leave a
//! verification pass are a Merkle root, a one-time nullifier and an amount.

pub mod bytes;
pub mod engine;
pub mod hash;
pub mod host;
pub mod merkle;
pub mod nullifier;
pub mod pedersen;
pub mod ristretto;
pub mod scalar;
pub mod tee;
pub mod types;
pub mod wire;
