//! The access set: an ordered sequence of public keys committed to by a
//! binary hash tree, together with the prover and verifier workflows that
//! turn a membership into an anonymous signal.
//!
//! The proving backend performs the hashing, proving and proof checking;
//! everything this module states — set-size validation, tree shape, the
//! authentication path of a leaf, the exact public-input serialization, and
//! the internal-consistency check on the backend's reported public inputs —
//! is verified.

use vstd::prelude::*;
use vstd::arithmetic::power2::pow2;
use vstd::arithmetic::power2::lemma_pow2_unfold;
use vstd::arithmetic::power2::lemma_pow2_pos;
use vstd::arithmetic::power2::lemma_pow2_adds;
use vstd::arithmetic::power2::lemma2_to64;
use vstd::arithmetic::div_mod::lemma_div_denominator;
use vstd::arithmetic::div_mod::lemma_multiply_divide_lt;
use crate::field::Digest;
use crate::field::digest_wf;
use crate::field::is_power_of_two;
use crate::field::checked_log2;
use crate::merkle::TreeBuilder;
use crate::merkle::levels_shaped;
use crate::merkle::auth_path;
use crate::merkle::sibling_index;
use crate::signal::SemaphoreError;
use crate::signal::Signal;
use crate::circuit::ConstraintSystem;
use crate::circuit::SemaphoreTargets;
use crate::circuit::SemaphoreWitness;
use crate::circuit::is_semaphore_layout;
use crate::field::element_wf;

verus! {

/// The committed access set: the full tree over the public keys, immutable
/// once built.  Level 0 holds the members' public keys in order; the single
/// node of the top level is the root commitment.
pub struct AccessSet {
    pub levels: Vec<Vec<Digest>>,
    pub height: usize,
}

impl AccessSet {
    /// The levels as sequences.
    pub open spec fn levels_seq(self) -> Seq<Seq<Digest>> {
        self.levels@.map_values(|v: Vec<Digest>| v@)
    }

    /// The ordered public keys the set commits to.
    pub open spec fn members(self) -> Seq<Digest> {
        self.levels_seq()[0]
    }

    /// The root commitment.
    pub open spec fn root_spec(self) -> Digest {
        self.levels_seq()[self.height as int][0]
    }

    /// Structural soundness: a full tree of `pow2(height)` leaves.
    pub open spec fn wf(self) -> bool {
        &&& self.height < 64
        &&& levels_shaped(self.levels_seq(), self.height as nat)
    }

    /// Starts the construction of an access set over a finalized list of
    /// public keys.  The leaf count must be a power of two; the returned
    /// builder is then driven with the backend's two-to-one hash until the
    /// root is reached (see `TreeBuilder`).
    pub fn build(public_keys: Vec<Digest>) -> (r: Result<TreeBuilder, SemaphoreError>)
        ensures
            r is Ok <==> is_power_of_two(public_keys@.len()),
            r matches Ok(b) ==> {
                &&& b.wf()
                &&& !b.complete() ==> b.levels_seq()[b.top()].len() == 0
                &&& b.levels_seq()[0] == public_keys@
                &&& public_keys@.len() == pow2(b.height as nat)
            },
            r matches Err(e) ==> e == SemaphoreError::InvalidSetSize,
    {
        match checked_log2(public_keys.len()) {
            Some(height) => Ok(TreeBuilder::new(public_keys, height)),
            None => Err(SemaphoreError::InvalidSetSize),
        }
    }

    /// The tree height: the base-two logarithm of the leaf count.
    pub fn tree_height(&self) -> (r: usize)
        ensures
            r == self.height,
    {
        self.height
    }

    /// The number of members.
    pub fn leaf_count(&self) -> (r: usize)
        requires
            self.wf(),
        ensures
            r as nat == pow2(self.height as nat),
            r as nat == self.members().len(),
    {
        proof {
            assert(self.levels_seq()[0].len() == pow2((self.height - 0) as nat));
            assert(self.levels_seq()[0] == self.levels@[0]@);
        }
        self.levels[0].len()
    }

    /// The root commitment, used verbatim as the first segment of every
    /// public-input vector.
    pub fn root_commitment(&self) -> (r: Digest)
        requires
            self.wf(),
        ensures
            r == self.root_spec(),
    {
        proof {
            lemma2_to64();
            assert(self.levels_seq().len() == self.levels@.len());
            assert(self.levels_seq()[self.height as int].len() == pow2(
                (self.height - self.height) as nat,
            ));
        }
        self.levels[self.height][0]
    }

    /// The authentication path of the leaf at `index`: the sibling digests
    /// of the leaf's ancestors, bottom up, exactly `height` of them.
    /// Rejects an index outside `[0, leaf_count)`.
    pub fn authentication_path(&self, index: usize) -> (r: Result<Vec<Digest>, SemaphoreError>)
        requires
            self.wf(),
        ensures
            r is Ok <==> (index as nat) < pow2(self.height as nat),
            r matches Ok(p) ==> p@ == auth_path(
                self.levels_seq(),
                self.height as nat,
                index as nat,
            ),
            r matches Err(e) ==> e == SemaphoreError::IndexOutOfRange,
    {
        proof {
            assert(self.levels_seq()[0].len() == pow2((self.height - 0) as nat));
            assert(self.levels_seq()[0] == self.levels@[0]@);
        }
        let count = self.levels[0].len();
        if index >= count {
            return Err(SemaphoreError::IndexOutOfRange);
        }
        let ghost gpath = auth_path(self.levels_seq(), self.height as nat, index as nat);
        let mut path: Vec<Digest> = Vec::new();
        let mut cur: usize = index;
        let mut k: usize = 0;
        proof {
            lemma2_to64();
        }
        while k < self.height
            invariant
                self.wf(),
                k <= self.height,
                (index as nat) < pow2(self.height as nat),
                cur as nat == index as nat / pow2(k as nat),
                path@.len() == k,
                gpath == auth_path(self.levels_seq(), self.height as nat, index as nat),
                forall|i: int| 0 <= i < k ==> path@[i] == gpath[i],
            decreases self.height - k,
        {
            proof {
                lemma_pow2_pos(k as nat);
                lemma_pow2_pos((self.height - k) as nat);
                lemma_pow2_pos((self.height - k - 1) as nat);
                lemma_pow2_adds(k as nat, (self.height - k) as nat);
                lemma_multiply_divide_lt(
                    index as int,
                    pow2(k as nat) as int,
                    pow2((self.height - k) as nat) as int,
                );
                assert((cur as nat) < pow2((self.height - k) as nat));
                lemma_pow2_unfold((self.height - k) as nat);
            }
            proof {
                assert(self.levels_seq().len() == self.levels@.len());
                assert(self.levels_seq()[k as int].len() == pow2((self.height - k) as nat));
                assert(self.levels_seq()[k as int] == self.levels@[k as int]@);
            }
            let level = &self.levels[k];
            let sib = if cur % 2 == 0 {
                cur + 1
            } else {
                cur - 1
            };
            proof {
                assert(level@.len() == pow2((self.height - k) as nat));
                assert(sib as nat == sibling_index(cur as nat));
                if cur % 2 == 0 {
                    assert((cur as nat + 1) < pow2((self.height - k) as nat)) by {
                        // an even index below an even bound leaves room for
                        // its right sibling
                        assert(cur as nat % 2 == 0);
                        assert(pow2((self.height - k) as nat) == 2 * pow2(
                            (self.height - k - 1) as nat,
                        ));
                        if cur as nat + 1 == pow2((self.height - k) as nat) {
                            assert((cur as nat + 1) % 2 == 1nat) by {
                                assert(cur as nat % 2 == 0);
                            }
                            assert((2 * pow2((self.height - k - 1) as nat)) % 2 == 0nat);
                        }
                    }
                }
                assert(gpath[k as int] == self.levels_seq()[k as int][sib as int]);
            }
            path.push(level[sib]);
            proof {
                lemma_pow2_unfold((k + 1) as nat);
                lemma_div_denominator(index as int, pow2(k as nat) as int, 2);
                assert((index as nat / pow2(k as nat)) / 2 == index as nat / pow2((k + 1) as nat));
            }
            cur = cur / 2;
            k = k + 1;
        }
        proof {
            assert(path@ =~= gpath);
        }
        Ok(path)
    }
}

impl TreeBuilder {
    /// Seals a completed tree into an immutable access set; yields `None`
    /// while parents are still missing.
    pub fn finish(self) -> (r: Option<AccessSet>)
        requires
            self.wf(),
        ensures
            r is Some <==> self.complete(),
            r matches Some(s) ==> {
                &&& s.wf()
                &&& s.height == self.height
                &&& s.levels_seq() == self.levels_seq()
            },
    {
        let t = self.levels.len() - 1;
        let filled = self.levels[t].len();
        if t == self.height && filled == 1 {
            let s = AccessSet { levels: self.levels, height: self.height };
            proof {
                lemma2_to64();
                assert(levels_shaped(s.levels_seq(), s.height as nat));
            }
            Some(s)
        } else {
            None
        }
    }
}


/// The public-input vector: the root commitment, the nullifier and the
/// topic, concatenated in that exact order.  The proving side registers its
/// public inputs in this order and the verifying side reconstructs the
/// vector the same way; the two must agree element for element.
pub open spec fn public_input_vec(root: Seq<u64>, nullifier: Seq<u64>, topic: Seq<u64>) -> Seq<
    u64,
> {
    root + nullifier + topic
}

/// Everything the proving backend needs to produce one signal: the declared
/// constraint system with its target roles, the witness assignment for the
/// chosen member, and the preimage of the nullifier, which the backend's
/// hash turns into the signal's nullifier.
pub struct ProverRun {
    pub system: ConstraintSystem,
    pub targets: SemaphoreTargets,
    pub witness: SemaphoreWitness,
    pub nullifier_preimage: Vec<u64>,
}

impl AccessSet {
    /// Prepares the production of a signal by the member at
    /// `public_key_index`: declares the semaphore circuit for this set,
    /// assigns the witness, and lays out the nullifier preimage
    /// `privateKey ‖ topic` for the backend's hash.  The backend is then
    /// run on the result, and what it returns goes through `accept_proof`.
    pub fn make_signal(
        &self,
        private_key: Digest,
        topic: Digest,
        public_key_index: usize,
    ) -> (r: Result<ProverRun, SemaphoreError>)
        requires
            self.wf(),
            digest_wf(private_key),
            digest_wf(topic),
        ensures
            r is Ok <==> (public_key_index as nat) < pow2(self.height as nat),
            r matches Err(e) ==> e == SemaphoreError::IndexOutOfRange,
            r matches Ok(run) ==> {
                &&& is_semaphore_layout(self.height as nat, run.system, run.targets)
                &&& run.witness.merkle_root == self.root_spec()
                &&& run.witness.private_key == private_key
                &&& run.witness.topic == topic
                &&& run.witness.public_key_index_value == public_key_index as u64
                &&& element_wf(run.witness.public_key_index_value)
                &&& run.witness.merkle_proof_siblings@ == crate::merkle::auth_path(
                    self.levels_seq(),
                    self.height as nat,
                    public_key_index as nat,
                )
                &&& run.nullifier_preimage@ == private_key@ + topic@
            },
    {
        let witness = match self.fill_semaphore_targets(private_key, topic, public_key_index) {
            Ok(w) => w,
            Err(e) => {
                return Err(e);
            },
        };
        let (system, targets) = self.semaphore_circuit();
        let mut nullifier_preimage: Vec<u64> = Vec::new();
        nullifier_preimage.push(private_key.elements[0]);
        nullifier_preimage.push(private_key.elements[1]);
        nullifier_preimage.push(private_key.elements[2]);
        nullifier_preimage.push(private_key.elements[3]);
        nullifier_preimage.push(topic.elements[0]);
        nullifier_preimage.push(topic.elements[1]);
        nullifier_preimage.push(topic.elements[2]);
        nullifier_preimage.push(topic.elements[3]);
        proof {
            assert(nullifier_preimage@ =~= private_key@ + topic@);
        }
        Ok(ProverRun { system, targets, witness, nullifier_preimage })
    }

    /// Seals the backend's output into a signal, after the internal
    /// consistency check of the protocol: the public inputs the backend
    /// reports for the produced proof must be exactly the canonical vector
    /// root ‖ nullifier ‖ topic for the nullifier the backend hashed.  A
    /// mismatch indicates a hashing-domain fault and is surfaced as a
    /// proof-construction failure, never ignored.
    pub fn accept_proof(
        &self,
        topic: Digest,
        nullifier: Digest,
        proof: Vec<u8>,
        reported_public_inputs: &Vec<u64>,
    ) -> (r: Result<Signal, SemaphoreError>)
        requires
            self.wf(),
        ensures
            r is Ok <==> reported_public_inputs@ == public_input_vec(
                self.root_spec()@,
                nullifier@,
                topic@,
            ),
            r matches Ok(s) ==> s.nullifier == nullifier && s.proof@ == proof@,
            r matches Err(e) ==> e == SemaphoreError::ProofConstruction,
    {
        let expected = self.public_inputs_for(&nullifier, &topic);
        if u64_vecs_equal(reported_public_inputs, &expected) {
            Ok(Signal { nullifier, proof })
        } else {
            Err(SemaphoreError::ProofConstruction)
        }
    }

    /// Reconstructs the public-input vector a signal must verify against:
    /// this set's root commitment, the signal's nullifier, and the topic,
    /// in that exact order.  The backend's verifier is run on this vector
    /// and the signal's proof; its accept/reject goes through
    /// `verification_result`.
    pub fn verify_signal(&self, topic: Digest, signal: &Signal) -> (r: Vec<u64>)
        requires
            self.wf(),
        ensures
            r@ == public_input_vec(self.root_spec()@, signal.nullifier@, topic@),
    {
        self.public_inputs_for(&signal.nullifier, &topic)
    }

    /// The canonical public-input vector for this set, a nullifier and a
    /// topic.
    fn public_inputs_for(&self, nullifier: &Digest, topic: &Digest) -> (r: Vec<u64>)
        requires
            self.wf(),
        ensures
            r@ == public_input_vec(self.root_spec()@, nullifier@, topic@),
    {
        let root = self.root_commitment();
        let mut r: Vec<u64> = Vec::new();
        r.push(root.elements[0]);
        r.push(root.elements[1]);
        r.push(root.elements[2]);
        r.push(root.elements[3]);
        r.push(nullifier.elements[0]);
        r.push(nullifier.elements[1]);
        r.push(nullifier.elements[2]);
        r.push(nullifier.elements[3]);
        r.push(topic.elements[0]);
        r.push(topic.elements[1]);
        r.push(topic.elements[2]);
        r.push(topic.elements[3]);
        proof {
            assert(r@ =~= public_input_vec(self.root_spec()@, nullifier@, topic@));
        }
        r
    }
}

/// Maps the backend verifier's accept/reject to the protocol's result: a
/// rejected proof is a verification failure, uniformly, whatever its cause.
pub fn verification_result(backend_accepted: bool) -> (r: Result<(), SemaphoreError>)
    ensures
        r is Ok <==> backend_accepted,
        r matches Err(e) ==> e == SemaphoreError::Verification,
{
    if backend_accepted {
        Ok(())
    } else {
        Err(SemaphoreError::Verification)
    }
}

/// Element-wise equality of two vectors of field elements.
fn u64_vecs_equal(a: &Vec<u64>, b: &Vec<u64>) -> (r: bool)
    ensures
        r <==> a@ == b@,
{
    if a.len() != b.len() {
        proof {
            assert(a@.len() != b@.len());
        }
        return false;
    }
    let mut i: usize = 0;
    while i < a.len()
        invariant
            i <= a@.len(),
            a@.len() == b@.len(),
            forall|j: int| 0 <= j < i ==> a@[j] == b@[j],
        decreases a@.len() - i,
    {
        if a[i] != b[i] {
            return false;
        }
        i += 1;
    }
    proof {
        assert(a@ =~= b@);
    }
    true
}

} // verus!
