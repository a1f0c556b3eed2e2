//! The protocol's general laws, stated and proved over the same spec
//! functions the executable contracts use.

use vstd::prelude::*;
use vstd::arithmetic::power2::pow2;
use vstd::arithmetic::power2::lemma_pow2_unfold;
use vstd::arithmetic::power2::lemma_pow2_pos;
use vstd::arithmetic::power2::lemma2_to64;
use vstd::arithmetic::div_mod::lemma_div_denominator;
use crate::access_set::public_input_vec;
use crate::access_set::AccessSet;
use crate::field::Digest;
use crate::merkle::auth_path;
use crate::merkle::fold_path;
use crate::merkle::levels_linked;
use crate::merkle::levels_shaped;
use crate::merkle::sibling_index;

verus! {

/// Completeness of the commitment structure: in a well-shaped tree whose
/// levels are linked by a combining function `f` — each parent is `f` of
/// its two children, as the builder's pairing discipline arranges with the
/// backend's two-to-one hash — walking the authentication path of any leaf
/// from that leaf, ordering each step by the leaf index's bits
/// (least-significant first), reconstructs exactly the root.  This is the
/// fact the membership constraint checks in circuit, so an honest witness
/// always satisfies it.
pub proof fn lemma_auth_path_reconstructs_root(
    levels: Seq<Seq<Digest>>,
    h: nat,
    f: spec_fn(Digest, Digest) -> Digest,
    index: nat,
)
    requires
        levels_shaped(levels, h),
        levels_linked(levels, f),
        index < pow2(h),
    ensures
        fold_path(levels[0][index as int], index, auth_path(levels, h, index), f)
            == levels[h as int][0],
    decreases h,
{
    lemma2_to64();
    let path = auth_path(levels, h, index);
    if h == 0 {
        assert(index == 0);
        assert(path.len() == 0);
    } else {
        let leaf = levels[0][index as int];
        let j = index / 2;
        lemma_pow2_unfold(h);
        lemma_pow2_pos((h - 1) as nat);
        assert(index < 2 * pow2((h - 1) as nat));
        assert(j < pow2((h - 1) as nat));
        assert(path[0] == levels[0][sibling_index(index) as int]) by {
            assert(index / pow2(0) == index);
        }
        let next = if index % 2 == 0 {
            f(leaf, path[0])
        } else {
            f(path[0], leaf)
        };
        assert(next == levels[1][j as int]) by {
            assert(levels[1].len() == pow2((h - 1) as nat));
            assert(levels[1][j as int] == f(levels[0][2 * (j as int)], levels[0][2 * (j as int)
                + 1]));
            if index % 2 == 0 {
                assert(2 * (j as int) == index);
                assert(sibling_index(index) == index + 1);
            } else {
                assert(2 * (j as int) == index - 1);
                assert(sibling_index(index) == index - 1);
            }
        }
        let upper = levels.drop_first();
        assert(levels_shaped(upper, (h - 1) as nat)) by {
            assert(forall|k: int|
                0 <= k <= h - 1 ==> (#[trigger] upper[k]).len() == levels[k + 1].len());
        }
        assert(levels_linked(upper, f)) by {
            assert(forall|k: int, i: int|
                1 <= k < upper.len() && 0 <= i < upper[k].len() ==> #[trigger] upper[k][i]
                    == levels[k + 1][i] && upper[k - 1][2 * i] == levels[k][2 * i] && upper[k
                    - 1][2 * i + 1] == levels[k][2 * i + 1]);
        }
        lemma_auth_path_reconstructs_root(upper, (h - 1) as nat, f, j);
        assert(path.drop_first() =~= auth_path(upper, (h - 1) as nat, j)) by {
            assert forall|k: int| 0 <= k < h - 1 implies path.drop_first()[k] == auth_path(
                upper,
                (h - 1) as nat,
                j,
            )[k] by {
                lemma_pow2_pos(k as nat);
                lemma_pow2_unfold((k + 1) as nat);
                lemma_div_denominator(index as int, 2, pow2(k as nat) as int);
                assert((index / 2) / pow2(k as nat) == index / pow2((k + 1) as nat));
                assert(path[k + 1] == levels[k + 1][sibling_index(index / pow2((k + 1) as nat)) as int]);
                assert(auth_path(upper, (h - 1) as nat, j)[k] == upper[k][sibling_index(
                    j / pow2(k as nat),
                ) as int]);
            }
        }
        assert(fold_path(leaf, index, path, f) == fold_path(next, j, path.drop_first(), f));
        assert(upper[(h - 1) as int][0] == levels[h as int][0]);
    }
}

/// Unambiguity of the public-input serialization: with the segment widths
/// fixed, the vector root ‖ nullifier ‖ topic determines its three segments.
/// Consequently a signal checked against a different root, a tampered
/// nullifier, or a different topic is checked against a different vector —
/// the backend never sees two distinct (root, nullifier, topic) triples
/// behind one vector.
pub proof fn lemma_public_input_vec_injective(
    root1: Seq<u64>,
    nullifier1: Seq<u64>,
    topic1: Seq<u64>,
    root2: Seq<u64>,
    nullifier2: Seq<u64>,
    topic2: Seq<u64>,
)
    requires
        root1.len() == root2.len(),
        nullifier1.len() == nullifier2.len(),
        public_input_vec(root1, nullifier1, topic1) == public_input_vec(root2, nullifier2, topic2),
    ensures
        root1 == root2,
        nullifier1 == nullifier2,
        topic1 == topic2,
{
    let v = public_input_vec(root1, nullifier1, topic1);
    assert(root1 =~= v.subrange(0, root1.len() as int));
    assert(root2 =~= v.subrange(0, root2.len() as int));
    assert(nullifier1 =~= v.subrange(root1.len() as int, (root1.len() + nullifier1.len()) as int));
    assert(nullifier2 =~= v.subrange(root2.len() as int, (root2.len() + nullifier2.len()) as int));
    assert(topic1 =~= v.subrange((root1.len() + nullifier1.len()) as int, v.len() as int));
    assert(topic2 =~= v.subrange((root2.len() + nullifier2.len()) as int, v.len() as int));
}

/// The nullifier preimage rule is a function of the private key and the
/// topic alone: any two signal productions for the same pair hand the
/// backend's hash the same preimage, so the deterministic hash yields the
/// same nullifier — this is what makes double-signaling on one topic
/// detectable.
pub proof fn lemma_nullifier_preimage_deterministic(
    sk: Seq<u64>,
    topic: Seq<u64>,
    preimage1: Seq<u64>,
    preimage2: Seq<u64>,
)
    requires
        preimage1 == sk + topic,
        preimage2 == sk + topic,
    ensures
        preimage1 == preimage2,
{
}

/// Distinct topics give distinct nullifier preimages for the same key (and
/// distinct keys give distinct preimages for the same topic), so the
/// corresponding nullifiers only collide if the backend's hash collides on
/// them.
pub proof fn lemma_nullifier_preimage_injective(
    sk1: Seq<u64>,
    topic1: Seq<u64>,
    sk2: Seq<u64>,
    topic2: Seq<u64>,
)
    requires
        sk1.len() == sk2.len(),
        sk1 + topic1 == sk2 + topic2,
    ensures
        sk1 == sk2,
        topic1 == topic2,
{
    let v = sk1 + topic1;
    assert(sk1 =~= v.subrange(0, sk1.len() as int));
    assert(sk2 =~= v.subrange(0, sk2.len() as int));
    assert(topic1 =~= v.subrange(sk1.len() as int, v.len() as int));
    assert(topic2 =~= v.subrange(sk2.len() as int, v.len() as int));
}


/// Witness-side completeness of the membership constraint, at the access
/// set's API: the leaf at `index` — the member's public key — folded along
/// its authentication path with the hash that linked the tree reconstructs
/// exactly the root commitment.  The membership constraint of the semaphore
/// circuit checks this very equation over the witness the core assigns
/// (leaf hash, index bits, authentication path, declared root), so an
/// honest member's witness always satisfies it, and the backend owes a
/// proof whenever the member is real.
pub proof fn lemma_honest_witness_reaches_root(
    set: AccessSet,
    combine: spec_fn(Digest, Digest) -> Digest,
    index: nat,
)
    requires
        set.wf(),
        levels_linked(set.levels_seq(), combine),
        index < pow2(set.height as nat),
    ensures
        fold_path(
            set.members()[index as int],
            index,
            auth_path(set.levels_seq(), set.height as nat, index),
            combine,
        ) == set.root_spec(),
{
    lemma_auth_path_reconstructs_root(set.levels_seq(), set.height as nat, combine, index);
}

} // verus!
