//! The binary commitment tree over public keys.
//!
//! The tree pairs nodes level by level: node `j` of level `k + 1` is the
//! backend hash of nodes `2j` and `2j + 1` of level `k`, and the single node
//! of the top level is the root commitment.  The hash itself is a capability
//! of the proving backend, so the tree is grown interactively: the builder
//! hands out the next sibling pair, the caller hashes it with the backend's
//! two-to-one hash, and hands the parent digest back.  Everything structural
//! — which pair is hashed, where its parent lands, the final shape — is
//! verified here; that the supplied parents really are hashes of the pairs
//! is the caller's obligation and is restated by `levels_linked`.

use vstd::prelude::*;
use vstd::arithmetic::power2::pow2;
use vstd::arithmetic::power2::lemma_pow2_unfold;
use vstd::arithmetic::power2::lemma_pow2_pos;
use vstd::arithmetic::power2::lemma2_to64;
use crate::field::Digest;

verus! {

/// The levels of a tree of height `h`, as sequences of digests: level 0 is
/// the `pow2(h)` leaves, level `h` is the single root.
pub open spec fn levels_shaped(levels: Seq<Seq<Digest>>, h: nat) -> bool {
    &&& levels.len() == h + 1
    &&& forall|k: int| 0 <= k <= h ==> (#[trigger] levels[k]).len() == pow2((h - k) as nat)
}

/// Each interior node is `f` of its two children, for a combining function
/// `f` — in the protocol, the backend's two-to-one hash.
pub open spec fn levels_linked(
    levels: Seq<Seq<Digest>>,
    f: spec_fn(Digest, Digest) -> Digest,
) -> bool {
    forall|k: int, j: int|
        1 <= k < levels.len() && 0 <= j < levels[k].len()
            ==> #[trigger] levels[k][j] == f(levels[k - 1][2 * j], levels[k - 1][2 * j + 1])
}

/// The index of the sibling of node `i` within its level.
pub open spec fn sibling_index(i: nat) -> nat {
    if i % 2 == 0 {
        i + 1
    } else {
        (i - 1) as nat
    }
}

/// The authentication path of leaf `index`: the sibling digests of the
/// leaf's ancestors, from the leaf level up to just below the root.
pub open spec fn auth_path(levels: Seq<Seq<Digest>>, h: nat, index: nat) -> Seq<Digest> {
    Seq::new(h, |k: int| levels[k][sibling_index((index / pow2(k as nat))) as int])
}

/// Walks an authentication path from a leaf up to a root candidate: at each
/// level the current digest is combined with the sibling, on the left or the
/// right as the matching bit of the leaf index directs (least-significant
/// bit first).
pub open spec fn fold_path(
    leaf: Digest,
    index: nat,
    path: Seq<Digest>,
    f: spec_fn(Digest, Digest) -> Digest,
) -> Digest
    decreases path.len(),
{
    if path.len() == 0 {
        leaf
    } else {
        let next = if index % 2 == 0 {
            f(leaf, path[0])
        } else {
            f(path[0], leaf)
        };
        fold_path(next, index / 2, path.drop_first(), f)
    }
}

/// Grows the commitment tree level by level from a finalized list of
/// leaves.  `next_pair` yields the sibling pair whose parent is wanted
/// next; `supply_parent` stores the digest the backend's hash returned for
/// it; the tree is complete once the root has been supplied.
pub struct TreeBuilder {
    /// `levels[0]` is the full leaf level; the last entry is the level
    /// currently being filled.
    pub levels: Vec<Vec<Digest>>,
    /// The height the finished tree will have; the leaf count is
    /// `pow2(height)`.
    pub height: usize,
}

impl TreeBuilder {
    /// The levels as sequences.
    pub open spec fn levels_seq(self) -> Seq<Seq<Digest>> {
        self.levels@.map_values(|v: Vec<Digest>| v@)
    }

    /// Index of the level currently being filled.
    pub open spec fn top(self) -> int {
        self.levels@.len() - 1
    }

    /// All parents up to the root have been supplied.
    pub open spec fn complete(self) -> bool {
        self.top() == self.height && self.levels_seq()[self.top()].len() == 1
    }

    /// Structural soundness: the leaf level is full, every level below the
    /// top is full, and the top level still has room (or is the completed
    /// root level).
    pub open spec fn wf(self) -> bool {
        &&& self.height < 64
        &&& 1 <= self.levels@.len() <= self.height + 1
        &&& self.levels_seq()[0].len() == pow2(self.height as nat)
        &&& forall|k: int|
            0 <= k < self.top() ==> (#[trigger] self.levels_seq()[k]).len() == pow2(
                (self.height - k) as nat,
            )
        &&& if self.top() == self.height {
            self.levels_seq()[self.top()].len() <= 1
        } else {
            self.levels_seq()[self.top()].len() < pow2((self.height - self.top()) as nat)
        }
    }

    /// Starts a tree over a full leaf level.
    pub fn new(leaves: Vec<Digest>, height: usize) -> (r: TreeBuilder)
        requires
            height < 64,
            leaves@.len() == pow2(height as nat),
        ensures
            r.wf(),
            r.height == height,
            r.levels_seq()[0] == leaves@,
            height == 0 ==> r.levels_seq() =~= seq![leaves@],
            height > 0 ==> r.levels_seq() =~= seq![leaves@, Seq::<Digest>::empty()],
    {
        let mut levels: Vec<Vec<Digest>> = Vec::new();
        levels.push(leaves);
        let mut r = TreeBuilder { levels, height };
        if height > 0 {
            proof {
                lemma_pow2_pos((height - 1) as nat);
                lemma_pow2_unfold(height as nat);
            }
            r.levels.push(Vec::new());
            proof {
                assert(r.levels_seq() =~= seq![r.levels@[0]@, Seq::<Digest>::empty()]);
            }
        } else {
            proof {
                lemma2_to64();
                assert(r.levels_seq() =~= seq![r.levels@[0]@]);
            }
        }
        r
    }

    /// The sibling pair whose parent digest is wanted next, or `None` once
    /// the root has been supplied.  The pair is always taken from the level
    /// below the top, at the position the next parent will occupy.
    pub fn next_pair(&self) -> (r: Option<(Digest, Digest)>)
        requires
            self.wf(),
        ensures
            r is None <==> self.complete(),
            r matches Some(pair) ==> {
                let k = self.top();
                let p = self.levels_seq()[k].len() as int;
                &&& k >= 1
                &&& 2 * p + 1 < self.levels_seq()[k - 1].len()
                &&& pair.0 == self.levels_seq()[k - 1][2 * p]
                &&& pair.1 == self.levels_seq()[k - 1][2 * p + 1]
            },
    {
        let t = self.levels.len() - 1;
        let filled = self.levels[t].len();
        if t == self.height && filled == 1 {
            return None;
        }
        proof {
            lemma2_to64();
            if t == 0 {
                // the leaf level is full, so an unfinished top can only sit
                // above it
                assert(self.levels_seq()[0].len() == pow2(self.height as nat));
                if self.height == 0 {
                    assert(false);
                } else {
                    lemma_pow2_pos((self.height - 1) as nat);
                    lemma_pow2_unfold(self.height as nat);
                    assert(false);
                }
            }
            lemma_pow2_pos((self.height - t) as nat);
            lemma_pow2_unfold((self.height - t + 1) as nat);
            assert(self.levels_seq()[t - 1].len() == pow2((self.height - t + 1) as nat));
            if t == self.height {
                assert(filled == 0);
            }
            assert(2 * (filled as int) + 1 < 2 * pow2((self.height - t) as nat));
        }
        let below = &self.levels[t - 1];
        let below_len = below.len();
        proof {
            assert(2 * (filled as int) + 1 < below_len as int);
        }
        let left = below[2 * filled];
        let right = below[2 * filled + 1];
        Some((left, right))
    }

    /// Stores the parent digest for the pair `next_pair` last yielded.  When
    /// the supplied digest completes a level below the root, a fresh empty
    /// level is opened above it.
    pub fn supply_parent(&mut self, parent: Digest)
        requires
            old(self).wf(),
            !old(self).complete(),
        ensures
            final(self).wf(),
            final(self).height == old(self).height,
            ({
                let k = old(self).top();
                let filled = old(self).levels_seq().update(
                    k,
                    old(self).levels_seq()[k].push(parent),
                );
                if k < old(self).height && filled[k].len() == pow2(
                    (old(self).height - k) as nat,
                ) {
                    final(self).levels_seq() =~= filled.push(Seq::<Digest>::empty())
                } else {
                    final(self).levels_seq() =~= filled
                }
            }),
    {
        let t = self.levels.len() - 1;
        proof {
            lemma2_to64();
            if t == 0 && self.height == 0 {
                assert(self.levels_seq()[0].len() == 1);
                assert(false);
            }
            if t == 0 {
                lemma_pow2_pos((self.height - 1) as nat);
                lemma_pow2_unfold(self.height as nat);
                assert(self.levels_seq()[0].len() == pow2(self.height as nat));
                assert(false);
            }
            assert(self.levels_seq()[t - 1].len() == pow2((self.height - t + 1) as nat));
            lemma_pow2_pos((self.height - t) as nat);
            lemma_pow2_unfold((self.height - t + 1) as nat);
        }
        let below_len = self.levels[t - 1].len();
        let mut topv = match self.levels.pop() {
            Some(v) => v,
            None => {
                proof {
                    assert(false);
                }
                Vec::new()
            },
        };
        topv.push(parent);
        let became_full = topv.len() == below_len / 2;
        proof {
            assert(below_len as int == 2 * pow2((self.height - t) as nat));
            assert(below_len as int / 2 == pow2((self.height - t) as nat));
        }
        self.levels.push(topv);
        proof {
            assert(self.levels_seq() =~~= old(self).levels_seq().update(
                t as int,
                old(self).levels_seq()[t as int].push(parent),
            ));
        }
        if became_full && t < self.height {
            self.levels.push(Vec::new());
            proof {
                assert(self.levels_seq() =~~= old(self).levels_seq().update(
                    t as int,
                    old(self).levels_seq()[t as int].push(parent),
                ).push(Seq::<Digest>::empty()));
                lemma_pow2_pos((self.height - t - 1) as nat);
                assert(self.top() == t + 1);
                assert(forall|k: int|
                    0 <= k < self.top() ==> (#[trigger] self.levels_seq()[k]).len() == pow2(
                        (self.height - k) as nat,
                    ));
                assert(self.levels_seq()[self.top()].len() == 0);
                assert(self.wf());
            }
        } else {
            proof {
                assert(self.top() == t);
                if t == self.height {
                    assert(old(self).levels_seq()[t as int].len() == 0);
                    assert(self.levels_seq()[t as int].len() == 1);
                } else {
                    assert(!became_full);
                    assert(self.levels_seq()[t as int].len() != pow2((self.height - t) as nat));
                    assert(self.levels_seq()[t as int].len() < pow2((self.height - t) as nat));
                }
                assert(self.wf());
            }
        }
    }
}


/// The bit decomposition of a leaf index, least-significant bit first, as
/// the membership constraint consumes it for path direction: bit `k` tells
/// whether the leaf's ancestor at level `k` is a right child.  The bit
/// order is security-sensitive — reversing it would silently prove
/// membership at the wrong leaf — so it is kept as this one isolated
/// function.
pub fn index_bits(index: usize, height: usize) -> (r: Vec<bool>)
    requires
        height < 64,
    ensures
        r@.len() == height,
        forall|k: int|
            0 <= k < height ==> r@[k] == (((index as nat / pow2(k as nat)) % 2) == 1),
{
    let mut r: Vec<bool> = Vec::new();
    let mut cur: usize = index;
    let mut k: usize = 0;
    proof {
        lemma2_to64();
    }
    while k < height
        invariant
            k <= height,
            r@.len() == k,
            cur as nat == index as nat / pow2(k as nat),
            forall|i: int|
                0 <= i < k ==> r@[i] == (((index as nat / pow2(i as nat)) % 2) == 1),
        decreases height - k,
    {
        r.push(cur % 2 == 1);
        proof {
            lemma_pow2_pos(k as nat);
            lemma_pow2_unfold((k + 1) as nat);
            vstd::arithmetic::div_mod::lemma_div_denominator(
                index as int,
                pow2(k as nat) as int,
                2,
            );
            assert((index as nat / pow2(k as nat)) / 2 == index as nat / pow2((k + 1) as nat));
        }
        cur = cur / 2;
        k = k + 1;
    }
    r
}

} // verus!
