//! The constraint specification of the semaphore circuit, and the witness
//! assignment for one member.
//!
//! The proving backend is asked to enforce exactly two constraints over a
//! fixed target layout: a membership check — the authentication path walked
//! from `Hash(privateKey ‖ ZeroDigest)` under the bit-decomposed leaf index
//! must reconstruct the declared root — and nullifier consistency —
//! `Hash(privateKey ‖ topic)` must equal the declared public nullifier.
//! The public inputs are registered in the fixed order root ‖ nullifier ‖
//! topic; the leaf index and the private key are private witnesses only.
//! This module builds that specification as data with exact contracts; the
//! backend driver translates each target and constraint one to one.

use vstd::prelude::*;
use vstd::arithmetic::power2::pow2;
use vstd::arithmetic::power2::lemma2_to64;
use vstd::arithmetic::power2::lemma2_to64_rest;
use vstd::arithmetic::power2::lemma_pow2_strictly_increases;
use crate::access_set::AccessSet;
use crate::field::Digest;
use crate::field::FIELD_ORDER;
use crate::field::digest_wf;
use crate::field::element_wf;
use crate::merkle::auth_path;
use crate::signal::SemaphoreError;

verus! {

/// One constraint asked of the backend's constraint-system builder.
/// Targets are abstract wire identifiers, dense in `[0, num_targets)`.
pub enum Constraint {
    /// The target carries the constant zero.
    ConstantZero { target: usize },
    /// The authentication path `siblings`, walked from the hash of
    /// `leaf_data` using the first `num_index_bits` bits of `index`
    /// (least-significant first) to choose the ordering at each level,
    /// reconstructs exactly `root`.
    MerkleMembership {
        leaf_data: Vec<usize>,
        index: usize,
        num_index_bits: usize,
        root: [usize; 4],
        siblings: Vec<[usize; 4]>,
    },
    /// The hash of `inputs` (no padding) equals `output` element-wise.
    HashEquals { inputs: Vec<usize>, output: [usize; 4] },
}

/// A finalized constraint system: a target count, the ordered public-input
/// registration, and the constraints.
pub struct ConstraintSystem {
    pub num_targets: usize,
    pub public_inputs: Vec<usize>,
    pub constraints: Vec<Constraint>,
}

/// The targets of the semaphore circuit, by role.
pub struct SemaphoreTargets {
    pub merkle_root: [usize; 4],
    pub nullifier: [usize; 4],
    pub topic: [usize; 4],
    pub merkle_proof_siblings: Vec<[usize; 4]>,
    pub private_key: [usize; 4],
    pub public_key_index: usize,
    pub zero: usize,
}

/// What it means for a constraint system and a target assignment to be the
/// semaphore circuit for a tree of height `h`: the public inputs are the
/// root, the nullifier and the topic, in that exact order and nothing else;
/// the membership and nullifier-consistency constraints are stated over the
/// right targets; and neither the leaf index nor any private-key element is
/// ever registered as a public input.
pub open spec fn is_semaphore_layout(h: nat, cs: ConstraintSystem, t: SemaphoreTargets) -> bool {
    &&& cs.public_inputs@ == t.merkle_root@ + t.nullifier@ + t.topic@
    &&& t.merkle_proof_siblings@.len() == h
    &&& cs.constraints@.len() == 3
    &&& (cs.constraints@[0] matches Constraint::ConstantZero { target } && target == t.zero)
    &&& (cs.constraints@[1] matches Constraint::MerkleMembership {
        leaf_data,
        index,
        num_index_bits,
        root,
        siblings,
    } && {
        &&& leaf_data@ == t.private_key@ + seq![t.zero, t.zero, t.zero, t.zero]
        &&& index == t.public_key_index
        &&& num_index_bits == h
        &&& root == t.merkle_root
        &&& siblings@ == t.merkle_proof_siblings@
    })
    &&& (cs.constraints@[2] matches Constraint::HashEquals { inputs, output } && {
        &&& inputs@ == t.private_key@ + t.topic@
        &&& output == t.nullifier
    })
    &&& !cs.public_inputs@.contains(t.public_key_index)
    &&& forall|j: int| 0 <= j < 4 ==> !cs.public_inputs@.contains(#[trigger] t.private_key@[j])
}

/// The witness assignment for one member: the concrete values bound to the
/// private and public targets of the semaphore circuit.  The nullifier
/// targets are deliberately absent: the backend derives their values from
/// the nullifier-consistency constraint.
pub struct SemaphoreWitness {
    pub merkle_root: Digest,
    pub private_key: Digest,
    pub topic: Digest,
    pub public_key_index_value: u64,
    pub merkle_proof_siblings: Vec<Digest>,
}

impl AccessSet {
    /// Declares the semaphore circuit for this set's height: the fixed
    /// public-input order, the membership constraint and the
    /// nullifier-consistency constraint (see `is_semaphore_layout`).
    pub fn semaphore_circuit(&self) -> (r: (ConstraintSystem, SemaphoreTargets))
        requires
            self.wf(),
        ensures
            is_semaphore_layout(self.height as nat, r.0, r.1),
            r.1.merkle_proof_siblings@.len() == self.height,
    {
        let h = self.height;
        let merkle_root: [usize; 4] = [0, 1, 2, 3];
        let nullifier: [usize; 4] = [4, 5, 6, 7];
        let topic: [usize; 4] = [8, 9, 10, 11];
        let mut siblings: Vec<[usize; 4]> = Vec::new();
        let mut k: usize = 0;
        while k < h
            invariant
                h < 64,
                k <= h,
                siblings@.len() == k,
            decreases h - k,
        {
            let base = 12 + 4 * k;
            siblings.push([base, base + 1, base + 2, base + 3]);
            k += 1;
        }
        let private_key: [usize; 4] = [12 + 4 * h, 13 + 4 * h, 14 + 4 * h, 15 + 4 * h];
        let public_key_index = 16 + 4 * h;
        let zero = 17 + 4 * h;

        let mut public_inputs: Vec<usize> = Vec::new();
        let mut i: usize = 0;
        while i < 12
            invariant
                i <= 12,
                public_inputs@.len() == i,
                forall|j: int| 0 <= j < i ==> public_inputs@[j] == j,
            decreases 12 - i,
        {
            public_inputs.push(i);
            i += 1;
        }

        let mut leaf_data: Vec<usize> = Vec::new();
        leaf_data.push(private_key[0]);
        leaf_data.push(private_key[1]);
        leaf_data.push(private_key[2]);
        leaf_data.push(private_key[3]);
        leaf_data.push(zero);
        leaf_data.push(zero);
        leaf_data.push(zero);
        leaf_data.push(zero);

        let mut hash_inputs: Vec<usize> = Vec::new();
        hash_inputs.push(private_key[0]);
        hash_inputs.push(private_key[1]);
        hash_inputs.push(private_key[2]);
        hash_inputs.push(private_key[3]);
        hash_inputs.push(topic[0]);
        hash_inputs.push(topic[1]);
        hash_inputs.push(topic[2]);
        hash_inputs.push(topic[3]);

        let siblings_copy = clone_sibling_targets(&siblings);

        let mut constraints: Vec<Constraint> = Vec::new();
        constraints.push(Constraint::ConstantZero { target: zero });
        constraints.push(
            Constraint::MerkleMembership {
                leaf_data,
                index: public_key_index,
                num_index_bits: h,
                root: merkle_root,
                siblings: siblings_copy,
            },
        );
        constraints.push(Constraint::HashEquals { inputs: hash_inputs, output: nullifier });

        let cs = ConstraintSystem { num_targets: 18 + 4 * h, public_inputs, constraints };
        let targets = SemaphoreTargets {
            merkle_root,
            nullifier,
            topic,
            merkle_proof_siblings: siblings,
            private_key,
            public_key_index,
            zero,
        };
        proof {
            assert(cs.public_inputs@ =~= targets.merkle_root@ + targets.nullifier@
                + targets.topic@);
            assert(cs.constraints@[1] matches Constraint::MerkleMembership { leaf_data, .. }
                && leaf_data@ =~= targets.private_key@ + seq![zero, zero, zero, zero]);
            assert(cs.constraints@[2] matches Constraint::HashEquals { inputs, .. }
                && inputs@ =~= targets.private_key@ + targets.topic@);
            assert(forall|j: int|
                0 <= j < cs.public_inputs@.len() ==> #[trigger] cs.public_inputs@[j] == j);
            assert(!cs.public_inputs@.contains(targets.public_key_index));
            assert(forall|j: int|
                0 <= j < 4 ==> !cs.public_inputs@.contains(#[trigger] targets.private_key@[j]));
        }
        (cs, targets)
    }

    /// Assigns the witness for the member at `public_key_index`: the root
    /// commitment, the member's private key, the topic, the leaf index in
    /// its field encoding, and the authentication path of the leaf.
    /// Rejects an index outside `[0, leaf_count)`.
    pub fn fill_semaphore_targets(
        &self,
        private_key: Digest,
        topic: Digest,
        public_key_index: usize,
    ) -> (r: Result<SemaphoreWitness, SemaphoreError>)
        requires
            self.wf(),
            digest_wf(private_key),
            digest_wf(topic),
        ensures
            r is Ok <==> (public_key_index as nat) < pow2(self.height as nat),
            r matches Ok(w) ==> {
                &&& w.merkle_root == self.root_spec()
                &&& w.private_key == private_key
                &&& w.topic == topic
                &&& w.public_key_index_value == public_key_index as u64
                &&& element_wf(w.public_key_index_value)
                &&& w.merkle_proof_siblings@ == auth_path(
                    self.levels_seq(),
                    self.height as nat,
                    public_key_index as nat,
                )
            },
            r matches Err(e) ==> e == SemaphoreError::IndexOutOfRange,
    {
        let path = match self.authentication_path(public_key_index) {
            Ok(p) => p,
            Err(e) => {
                return Err(e);
            },
        };
        proof {
            lemma2_to64();
            lemma2_to64_rest();
            if self.height < 63 {
                lemma_pow2_strictly_increases(self.height as nat, 63);
            }
            assert((public_key_index as nat) < pow2(63));
            assert(pow2(63) < FIELD_ORDER as nat);
        }
        Ok(
            SemaphoreWitness {
                merkle_root: self.root_commitment(),
                private_key,
                topic,
                public_key_index_value: public_key_index as u64,
                merkle_proof_siblings: path,
            },
        )
    }
}

/// Copies a sibling-target table entry by entry.
fn clone_sibling_targets(siblings: &Vec<[usize; 4]>) -> (r: Vec<[usize; 4]>)
    ensures
        r@ == siblings@,
{
    let mut r: Vec<[usize; 4]> = Vec::new();
    let mut i: usize = 0;
    while i < siblings.len()
        invariant
            i <= siblings@.len(),
            r@ =~= siblings@.take(i as int),
        decreases siblings@.len() - i,
    {
        r.push(siblings[i]);
        proof {
            assert(r@ =~= siblings@.take(i + 1));
        }
        i += 1;
    }
    proof {
        assert(r@ =~= siblings@);
    }
    r
}

} // verus!
