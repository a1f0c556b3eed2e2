//! The signal value and the protocol's error taxonomy.

use vstd::prelude::*;
use crate::field::Digest;

verus! {

/// A signal: the deterministic per-(key, topic) nullifier together with the
/// succinct proof produced by the proving backend.  The proof is opaque to
/// the protocol core; it is carried as the byte encoding the backend emitted
/// and handed back to the backend verbatim at verification time.
#[derive(Clone, Debug)]
pub struct Signal {
    pub nullifier: Digest,
    pub proof: Vec<u8>,
}

/// Every failure of the protocol core, by cause.
#[derive(Clone, Copy, Debug, PartialEq, Eq, Structural)]
pub enum SemaphoreError {
    /// The access set was given a leaf count that is not a power of two.
    InvalidSetSize,
    /// A leaf index outside `[0, leaf_count)` was requested.
    IndexOutOfRange,
    /// The backend could not produce a proof consistent with the assigned
    /// witness, or reported public inputs that differ from the canonical
    /// public-input vector.
    ProofConstruction,
    /// The backend rejected a proof; covers malformed proofs, tampered
    /// public inputs and mismatched verifier artifacts alike.
    Verification,
}

impl SemaphoreError {
    /// A short description, for callers that report failures.
    pub fn describe(&self) -> (r: &'static str)
        ensures
            r@ =~= match self {
                SemaphoreError::InvalidSetSize => "leaf count is not a power of two"@,
                SemaphoreError::IndexOutOfRange => "leaf index out of range"@,
                SemaphoreError::ProofConstruction => "proof construction failed"@,
                SemaphoreError::Verification => "proof verification failed"@,
            },
    {
        match self {
            SemaphoreError::InvalidSetSize => "leaf count is not a power of two",
            SemaphoreError::IndexOutOfRange => "leaf index out of range",
            SemaphoreError::ProofConstruction => "proof construction failed",
            SemaphoreError::Verification => "proof verification failed",
        }
    }
}

} // verus!
