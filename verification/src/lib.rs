//! Non-interactive Schnorr proofs of knowledge of a discrete logarithm on
//! secp256k1: a prover shows that it knows the `x` with `y = x·G` and
//! reveals nothing else of it.
//!
//! A proof is a commitment `t = r·G` to a fresh nonce `r` and a response
//! `s = r + c·x` modulo the group order. The challenge `c` is read from the
//! SHA-256 digest of a transcript that binds the session, the participant and
//! the points `G`, `y`, `t`. The proof holds where `s·G = t + c·y`.
//!
//! - [`scalar`] and [`point`] hold the values: a scalar as its 32 big-endian
//!   bytes, a point as its canonical 33-byte encoding. The arithmetic on them
//!   is that of the `k256` crate.
//! - [`challenge`] builds the transcript and reads the challenge from its
//!   digest.
//! - [`dlog_proof`] makes and checks proofs.
//! - [`serialization`] writes points, scalars and proofs as hexadecimal text
//!   and reads them back; [`hex_text`] says what that text means.
//!
//! The functions are verified against their contracts with Verus. What is
//! taken on trust of the crates underneath stands in the contracts of the
//! private functions that call them, each beside its call.

pub mod challenge;
pub mod dlog_proof;
pub mod encoding;
pub mod error;
pub mod hex_text;
pub mod point;
pub mod scalar;
pub mod serialization;

pub use crate::dlog_proof::DLogProof;
pub use crate::error::ProofError;
pub use crate::point::Point;
pub use crate::scalar::Scalar;
pub use crate::serialization::EncodedProof;
