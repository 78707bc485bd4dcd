//! Proof toolkit for a federated-learning setting: key generation,
//! Schnorr-style proofs of knowledge bound to a challenge, folding-based
//! statement proofs over a computation trace, and batch aggregation of
//! statement proofs into one aggregate proof.
//!
//! All keys, challenges and proofs cross the API as plain byte sequences;
//! every byte layout round-trips exactly.

pub mod backend;
pub mod codec;
pub mod field;
pub mod protogalaxy;
pub mod protostar;
pub mod schnorr;
pub mod types;
