//! The algebraic base of the protocol: a prime-field element model and the
//! fixed-width digest used uniformly for keys, hashes, topics and nullifiers.
//!
//! Field elements are carried as canonical `u64` representatives, strictly
//! below the field order; every conversion to the backend's field type
//! requires canonicity, and every value coming back from the backend is
//! reduced to it.

use vstd::prelude::*;
use vstd::arithmetic::power2::pow2;
use vstd::arithmetic::power2::lemma_pow2_unfold;
use vstd::arithmetic::power2::lemma_pow2_pos;
use vstd::arithmetic::power2::lemma2_to64;
use vstd::arithmetic::power2::lemma2_to64_rest;

verus! {

/// The order of the prime field used by the proving backend
/// (the Goldilocks prime, 2^64 - 2^32 + 1).
pub const FIELD_ORDER: u64 = 0xFFFF_FFFF_0000_0001;

/// A canonical field element: a `u64` strictly below the field order.
pub open spec fn element_wf(x: u64) -> bool {
    x < FIELD_ORDER
}

/// Every cryptographic value of the protocol is a digest of exactly four
/// field elements: private keys, public keys, topics, nullifiers and hash
/// outputs all share this shape, and no digest is ever partially populated.
#[derive(Clone, Copy, Debug)]
pub struct Digest {
    pub elements: [u64; 4],
}

impl View for Digest {
    type V = Seq<u64>;

    open spec fn view(&self) -> Seq<u64> {
        self.elements@
    }
}

/// A well-formed digest holds four canonical field elements.
pub open spec fn digest_wf(d: Digest) -> bool {
    forall|i: int| 0 <= i < 4 ==> element_wf(#[trigger] d@[i])
}

impl Digest {
    /// Checked constructor: accepts exactly the element vectors whose
    /// entries are all canonical field elements.
    pub fn new(elements: [u64; 4]) -> (r: Option<Digest>)
        ensures
            r matches Some(d) ==> d@ == elements@ && digest_wf(d),
            r is Some <==> (forall|i: int| 0 <= i < 4 ==> #[trigger] elements@[i] < FIELD_ORDER),
    {
        let mut i: usize = 0;
        while i < 4
            invariant
                i <= 4,
                forall|j: int| 0 <= j < i ==> #[trigger] elements@[j] < FIELD_ORDER,
            decreases 4 - i,
        {
            if elements[i] >= FIELD_ORDER {
                return None;
            }
            i += 1;
        }
        Some(Digest { elements })
    }

    /// The all-zero digest, used as the padding block in public-key
    /// derivation.
    pub fn zero() -> (r: Digest)
        ensures
            r@ == zero_digest(),
            digest_wf(r),
    {
        let d = Digest { elements: [0, 0, 0, 0] };
        proof {
            assert(d@ =~= zero_digest());
        }
        d
    }
}

/// The all-zero digest as a sequence.
pub open spec fn zero_digest() -> Seq<u64> {
    seq![0u64, 0u64, 0u64, 0u64]
}

/// A leaf count is admissible exactly when it is a power of two.
pub open spec fn is_power_of_two(n: nat) -> bool
    decreases n,
{
    if n == 0 {
        false
    } else if n == 1 {
        true
    } else {
        n % 2 == 0 && is_power_of_two(n / 2)
    }
}

/// Every power of two is admissible.
pub proof fn lemma_pow2_is_power_of_two(e: nat)
    ensures
        is_power_of_two(pow2(e)),
        pow2(e) >= 1,
    decreases e,
{
    lemma_pow2_pos(e);
    if e > 0 {
        lemma_pow2_is_power_of_two((e - 1) as nat);
        lemma_pow2_unfold(e);
    } else {
        lemma2_to64();
    }
}

/// The exact base-two logarithm of a power of two, and the witness that a
/// non-power-of-two has none: returns `Some(h)` with `n == pow2(h)` exactly
/// when `n` is a power of two.
pub fn checked_log2(n: usize) -> (r: Option<usize>)
    ensures
        r matches Some(h) ==> n as nat == pow2(h as nat) && h < 64,
        r is Some <==> is_power_of_two(n as nat),
{
    if n == 0 {
        return None;
    }
    proof {
        lemma2_to64();
    }
    let mut m: usize = n;
    let mut h: usize = 0;
    while m > 1
        invariant
            1 <= m <= n,
            h < 64,
            n as nat == m as nat * pow2(h as nat),
            is_power_of_two(n as nat) == is_power_of_two(m as nat),
        decreases m,
    {
        if m % 2 != 0 {
            return None;
        }
        proof {
            lemma_pow2_pos(h as nat);
            lemma_pow2_unfold((h + 1) as nat);
            assert(m as nat == 2 * (m as nat / 2));
            assert(m as nat * pow2(h as nat) == (m as nat / 2) * pow2((h + 1) as nat))
                by (nonlinear_arith)
                requires
                    m as nat == 2 * (m as nat / 2),
                    pow2((h + 1) as nat) == 2 * pow2(h as nat),
            ;
            assert(m as nat / 2 >= 1);
            assert(m as nat * pow2(h as nat) >= pow2((h + 1) as nat)) by (nonlinear_arith)
                requires
                    m as nat >= 2,
                    pow2((h + 1) as nat) == 2 * pow2(h as nat),
                    pow2(h as nat) >= 1,
            ;
            if h + 1 >= 64 {
                lemma2_to64_rest();
                assert(n as nat >= pow2(64));
                assert(false);
            }
        }
        m = m / 2;
        h = h + 1;
    }
    proof {
        assert(n as nat == pow2(h as nat));
        lemma_pow2_is_power_of_two(h as nat);
    }
    Some(h)
}

} // verus!
