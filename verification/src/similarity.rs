//! Similarity scores as IEEE-754 single-precision bit patterns.
//!
//! The verifier has no floating-point arithmetic, so a score or a vector
//! component travels through this crate as the 32 bits of its binary32
//! encoding. Everything that can be settled on the bits alone is settled here:
//! which patterns are zero, which are not numbers, how two scores are ordered,
//! and when a similarity is zero whatever the arithmetic gave.

use vstd::prelude::*;

verus! {

/// The bit pattern of `+0.0`.
pub const POSITIVE_ZERO: u32 = 0;

/// The pattern with only the sign bit set: `-0.0`.
pub const SIGN_BIT: u32 = 0x8000_0000;

/// The pattern of positive infinity, the largest magnitude that is a number.
pub const INFINITY: u32 = 0x7f80_0000;

/// Exponent and mantissa of a pattern: the pattern with its sign cleared.
pub open spec fn magnitude(bits: u32) -> int {
    if bits >= SIGN_BIT {
        bits - SIGN_BIT
    } else {
        bits as int
    }
}

/// The pattern encodes `+0.0` or `-0.0`, the two values that equal zero.
pub open spec fn is_zero(bits: u32) -> bool {
    magnitude(bits) == 0
}

/// The pattern encodes no number.
pub open spec fn is_nan(bits: u32) -> bool {
    magnitude(bits) > INFINITY
}

/// Every component of the vector equals zero.
pub open spec fn all_zero(v: Seq<u32>) -> bool {
    forall|i: int| 0 <= i < v.len() ==> is_zero(#[trigger] v[i])
}

/// Where a score stands among all scores: larger is better.
///
/// On numbers this is the numeric order of the encoded values, with `-0.0`
/// and `+0.0` level. Every pattern that is no number stands level with every
/// other such pattern and below negative infinity, so a score that could not
/// be computed never displaces one that could.
pub open spec fn score_rank(bits: u32) -> int {
    if is_nan(bits) {
        -(INFINITY as int) - 1
    } else if bits >= SIGN_BIT {
        -magnitude(bits)
    } else {
        magnitude(bits)
    }
}

/// Cosine similarity of `a` and `b`, given what the arithmetic produced.
///
/// `norm_a` and `norm_b` are the Euclidean norms of the two vectors and
/// `quotient` is their dot product divided by the product of the norms. The
/// similarity is `+0.0` when the lengths differ, when either vector is all
/// zeros, or when either norm equals zero; otherwise it is the quotient.
pub open spec fn similarity(
    a: Seq<u32>,
    b: Seq<u32>,
    norm_a: u32,
    norm_b: u32,
    quotient: u32,
) -> u32 {
    if a.len() != b.len() || all_zero(a) || all_zero(b) || is_zero(norm_a) || is_zero(norm_b) {
        POSITIVE_ZERO
    } else {
        quotient
    }
}

/// Tells whether a pattern equals zero.
pub fn equals_zero(bits: u32) -> (r: bool)
    ensures
        r == is_zero(bits),
{
    bits == POSITIVE_ZERO || bits == SIGN_BIT
}

/// Tells whether every component of `v` equals zero.
pub fn is_zero_vector(v: &[u32]) -> (r: bool)
    ensures
        r == all_zero(v@),
{
    let mut i: usize = 0;
    while i < v.len()
        invariant
            i <= v@.len(),
            forall|j: int| 0 <= j < i ==> is_zero(#[trigger] v@[j]),
        decreases v@.len() - i,
    {
        if !equals_zero(v[i]) {
            return false;
        }
        i += 1;
    }
    true
}

/// The rank of a score as a machine integer.
pub fn rank_of(bits: u32) -> (r: i64)
    ensures
        r == score_rank(bits),
{
    let negative: bool = bits >= SIGN_BIT;
    let size: u32 = if negative { bits - SIGN_BIT } else { bits };
    if size > INFINITY {
        let bound: i64 = INFINITY as i64;
        -bound - 1
    } else if negative {
        let wide: i64 = size as i64;
        -wide
    } else {
        size as i64
    }
}

/// Tells whether score `a` stands strictly above score `b`.
pub fn outranks(a: u32, b: u32) -> (r: bool)
    ensures
        r == (score_rank(a) > score_rank(b)),
{
    rank_of(a) > rank_of(b)
}

/// Cosine similarity of two vectors from the results of the arithmetic.
///
/// The caller computes both norms and the quotient in floating point and hands
/// over their bit patterns; this function decides which of them counts.
pub fn cosine_similarity(a: &[u32], b: &[u32], norm_a: u32, norm_b: u32, quotient: u32) -> (r:
    u32)
    ensures
        r == similarity(a@, b@, norm_a, norm_b, quotient),
        a@.len() != b@.len() ==> r == POSITIVE_ZERO,
        all_zero(a@) || all_zero(b@) ==> r == POSITIVE_ZERO,
{
    if a.len() != b.len() {
        return POSITIVE_ZERO;
    }
    if is_zero_vector(a) || is_zero_vector(b) {
        return POSITIVE_ZERO;
    }
    if equals_zero(norm_a) || equals_zero(norm_b) {
        return POSITIVE_ZERO;
    }
    quotient
}

/// Exchanging the two vectors together with their norms leaves the similarity
/// as it was, for one and the same quotient.
pub proof fn lemma_similarity_symmetric(
    a: Seq<u32>,
    b: Seq<u32>,
    norm_a: u32,
    norm_b: u32,
    quotient: u32,
)
    ensures
        similarity(a, b, norm_a, norm_b, quotient) == similarity(b, a, norm_b, norm_a, quotient),
{
}

/// Against a vector of another length, or when either vector is all zeros,
/// the similarity is exactly `+0.0` whatever the arithmetic produced.
pub proof fn lemma_similarity_zero(
    a: Seq<u32>,
    b: Seq<u32>,
    norm_a: u32,
    norm_b: u32,
    quotient: u32,
)
    requires
        a.len() != b.len() || all_zero(a) || all_zero(b),
    ensures
        similarity(a, b, norm_a, norm_b, quotient) == POSITIVE_ZERO,
{
}

} // verus!
