//! Proofs that frames of a stored video are what was stored.
//!
//! An album keeps one sparse Merkle tree for each media item, keyed by the
//! hash of a frame's position and holding the digest of the frame. A prover
//! draws challenge positions from the output of a verifiable random function
//! and answers them with a proof against the published root.
//!
//! Nothing here reads a file or touches a store. Every function takes what
//! was read and says what follows: the records to write, the keys to ask a
//! tree for, the error to raise.

pub mod digest;
pub mod error;
pub mod hexcode;
pub mod prover;
pub mod store;
pub mod tac;

pub use error::{ComposerError, ComposerResult};
pub use tac::Album;
