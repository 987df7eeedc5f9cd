//! The dimension bound and the bit-pattern vocabulary built on it.
//!
//! A dimension `d` declares how many independent basis vectors exist; it
//! supplies the mask of the `d` lowest bits, under which every blade bit
//! pattern is kept. This module also defines the population-count model
//! (`count_below`, `popcount64`) that grades and product signs are stated
//! with, together with the lemmas about it that the rest of the crate uses.

use vstd::prelude::*;

verus! {

/// The widest dimension a bit pattern can encode: blades live in `u64`s.
pub const MAX_DIMENSION: u8 = 64;

/// Errors reported at construction boundaries; the product algorithm itself
/// is total and never fails.
#[derive(Clone, Copy, Debug, PartialEq, Eq, Structural)]
pub enum BladeError {
    /// A membership sequence's length differs from the declared dimension,
    /// or two blades built against different dimensions were combined.
    DimensionMismatch,
    /// A dimension outside `1..=MAX_DIMENSION` was requested.
    OutOfRangeDimension,
}

/// Whether `d` is a dimension this library supports.
pub open spec fn valid_dimension(d: u8) -> bool {
    1 <= d && d <= MAX_DIMENSION
}

/// The mask with exactly the `d` lowest bits set.
pub open spec fn dimension_mask(d: u8) -> u64
    recommends
        d <= MAX_DIMENSION,
{
    if d >= 64 {
        u64::MAX
    } else {
        (((1u64 << (d as u64)) - 1) as u64)
    }
}

/// 1 if bit `i` of `x` is set, 0 otherwise (positions past the width are 0).
pub open spec fn bit_at(x: u64, i: u64) -> nat {
    if i < 64 && (x >> i) & 1 == 1 {
        1nat
    } else {
        0nat
    }
}

/// How many bits of `x` are set at positions below `n`.
pub open spec fn count_below(x: u64, n: u64) -> nat
    decreases n,
{
    if n == 0 {
        0
    } else {
        count_below(x, (n - 1) as u64) + bit_at(x, (n - 1) as u64)
    }
}

/// The population count of the whole 64-bit pattern.
pub open spec fn popcount64(x: u64) -> nat {
    count_below(x, 64)
}

/// At most `n` bits are set below position `n`.
pub proof fn lemma_count_below_le(x: u64, n: u64)
    ensures
        count_below(x, n) <= n,
    decreases n,
{
    if n > 0 {
        lemma_count_below_le(x, (n - 1) as u64);
    }
}

/// The zero pattern has no set bits.
pub proof fn lemma_count_below_zero(n: u64)
    ensures
        count_below(0, n) == 0,
    decreases n,
{
    if n > 0 {
        let m = (n - 1) as u64;
        lemma_count_below_zero(m);
        assert((0u64 >> m) & 1 == 0) by (bit_vector);
    }
}

/// Counting below `n` peels off the lowest bit: the count is that bit plus
/// the count of the shifted pattern below `n - 1`.
pub proof fn lemma_count_below_shift(x: u64, n: u64)
    requires
        1 <= n <= 64,
    ensures
        count_below(x, n) == (x & 1) as nat + count_below(x >> 1, (n - 1) as u64),
    decreases n,
{
    assert(x & 1 <= 1) by (bit_vector);
    if n == 1 {
        reveal_with_fuel(count_below, 2);
        assert((x >> 0) & 1 == x & 1) by (bit_vector);
        assert(bit_at(x, 0) == (x & 1) as nat);
    } else {
        lemma_count_below_shift(x, (n - 1) as u64);
        let m = (n - 2) as u64;
        let m1 = (n - 1) as u64;
        assert(((x >> 1) >> m) & 1 == (x >> m1) & 1) by (bit_vector)
            requires
                m1 == m + 1 && m1 < 64,
        ;
        assert(bit_at(x >> 1, m) == bit_at(x, m1));
    }
}

/// If no bit is set at positions `m..n`, the counts below `m` and `n` agree.
pub proof fn lemma_count_below_stable(x: u64, m: u64, n: u64)
    requires
        m <= n,
        forall|i: u64| m <= i < n ==> bit_at(x, i) == 0,
    ensures
        count_below(x, n) == count_below(x, m),
    decreases n,
{
    if n > m {
        assert(bit_at(x, (n - 1) as u64) == 0);
        lemma_count_below_stable(x, m, (n - 1) as u64);
    }
}

/// Disjoint patterns contribute their set bits separately to their union.
pub proof fn lemma_count_below_or_disjoint(l: u64, r: u64, n: u64)
    requires
        l & r == 0,
        n <= 64,
    ensures
        count_below(l | r, n) == count_below(l, n) + count_below(r, n),
    decreases n,
{
    if n > 0 {
        let m = (n - 1) as u64;
        lemma_count_below_or_disjoint(l, r, m);
        assert((((l | r) >> m) & 1 == 1) == (((l >> m) & 1 == 1) || ((r >> m) & 1 == 1)))
            by (bit_vector);
        assert(!(((l >> m) & 1 == 1) && ((r >> m) & 1 == 1))) by (bit_vector)
            requires
                l & r == 0,
        ;
        assert(bit_at(l | r, m) == bit_at(l, m) + bit_at(r, m));
    }
}

/// A pattern that survives the mask of dimension `d` has no bit at or above
/// position `d`, so its population count is at most `d`.
pub proof fn lemma_masked_popcount_le(x: u64, d: u8)
    requires
        d <= MAX_DIMENSION,
        x & dimension_mask(d) == x,
    ensures
        popcount64(x) <= d as nat,
{
    if d == 64 {
        lemma_count_below_le(x, 64);
    } else {
        let dd = d as u64;
        assert forall|i: u64| dd <= i < 64 implies bit_at(x, i) == 0 by {
            assert((x >> i) & 1 == 0) by (bit_vector)
                requires
                    x & (((1u64 << dd) - 1) as u64) == x,
                    dd <= i < 64,
                    dd < 64,
            ;
        }
        lemma_count_below_stable(x, dd, 64);
        lemma_count_below_le(x, dd);
    }
}

/// Dimension-bound capability: a dimension value supplies the bit mask that
/// keeps blade patterns within its width.
pub trait BitsetMask {
    /// The mask this dimension stands for.
    spec fn mask_spec(&self) -> u64;

    /// When the mask is defined for this value.
    spec fn mask_req(&self) -> bool;

    /// The mask of the lowest bits admitted by this dimension.
    fn bitset_mask(&self) -> (r: u64)
        requires
            self.mask_req(),
        ensures
            r == self.mask_spec(),
    ;
}

impl BitsetMask for u8 {
    open spec fn mask_spec(&self) -> u64 {
        dimension_mask(*self)
    }

    open spec fn mask_req(&self) -> bool {
        *self <= MAX_DIMENSION
    }

    fn bitset_mask(&self) -> (r: u64) {
        if *self >= 64 {
            u64::MAX
        } else {
            let d: u64 = *self as u64;
            proof {
                assert(1u64 << d >= 1) by (bit_vector)
                    requires
                        d < 64,
                ;
            }
            (1u64 << d) - 1
        }
    }
}

/// A bit-counting capability over the blade encoding.
pub trait CountBits {
    /// The mathematical population count of this value.
    spec fn count_spec(&self) -> nat;

    /// Counts the set bits of this value.
    fn count_bits(&self) -> (r: u8)
        ensures
            r as nat == self.count_spec(),
    ;
}

impl CountBits for u64 {
    open spec fn count_spec(&self) -> nat {
        popcount64(*self)
    }

    fn count_bits(&self) -> (r: u8) {
        let mut bitset: u64 = *self;
        let mut count: u8 = 0;
        proof {
            lemma_count_below_le(*self, 64);
        }
        while bitset != 0
            invariant
                popcount64(*self) <= 64,
                count as nat + popcount64(bitset) == popcount64(*self),
            decreases bitset,
        {
            proof {
                lemma_count_below_shift(bitset, 64);
                let s: u64 = bitset >> 1;
                assert(((s >> 63) & 1) == 0) by (bit_vector)
                    requires
                        s == bitset >> 1,
                ;
                assert(bit_at(s, 63) == 0);
                lemma_count_below_stable(s, 63, 64);
                assert(bitset >> 1 < bitset) by (bit_vector)
                    requires
                        bitset != 0,
                ;
            }
            count = count + (bitset & 1) as u8;
            bitset = bitset >> 1;
        }
        proof {
            lemma_count_below_zero(64);
        }
        count
    }
}

/// The number of basis vectors a blade is composed of.
pub trait Grade {
    /// The mathematical grade of this value.
    spec fn grade_spec(&self) -> nat;

    /// The grade: how many basis vectors participate.
    fn grade(&self) -> (r: u8)
        ensures
            r as nat == self.grade_spec(),
    ;
}

/// A dimension bound: a value that can say whether it is a supported
/// dimension, and (through [`BitsetMask`]) supply the mask of that width.
pub trait Dimension: BitsetMask {
    /// Whether this value is a dimension the library supports.
    spec fn valid_spec(&self) -> bool;

    /// Runtime check that this dimension is supported.
    fn is_supported(&self) -> (r: bool)
        ensures
            r == self.valid_spec(),
    ;
}

impl Dimension for u8 {
    open spec fn valid_spec(&self) -> bool {
        valid_dimension(*self)
    }

    fn is_supported(&self) -> (r: bool) {
        1 <= *self && *self <= MAX_DIMENSION
    }
}

} // verus!
