//! An anonymous group-membership signaling protocol.
//!
//! A party holding a private key whose public key is registered in a public
//! access set can prove, in zero knowledge, that it is a member of that set
//! and that it signals on a given topic, without revealing which member it
//! is.  A deterministic per-(key, topic) nullifier makes double-signaling
//! detectable by the surrounding application.
//!
//! The succinct proofs themselves are produced and checked by the plonky2
//! proving backend; this crate specifies and verifies everything around that
//! boundary: the digest model, the access-set commitment structure, the
//! public-input serialization, the nullifier derivation rule, and the
//! prover/verifier workflows.

pub mod access_set;
pub mod circuit;
pub mod field;
pub mod laws;
pub mod merkle;
pub mod signal;
