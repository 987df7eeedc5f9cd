//! The permutation-parity theory behind the product's sign.
//!
//! Merging the ascending basis-vector lists of two disjoint blades into one
//! ascending list costs one transposition for every pair of a vector of the
//! left blade and a strictly lower-indexed vector of the right blade. The
//! spec function `inversions` counts those pairs; the product routine flips
//! the sign of the scale exactly when that count is odd.

use vstd::prelude::*;
use crate::dimension::bit_at;
use crate::dimension::count_below;
use crate::dimension::lemma_count_below_le;
use crate::dimension::lemma_count_below_stable;
use crate::dimension::lemma_count_below_zero;
use crate::dimension::popcount64;

verus! {

/// Pairs (i, j) with i < n, bit i of `l` set, j < i, and bit j of `r` set:
/// each set bit of `l` below `n` contributes the set bits of `r` below it.
pub open spec fn inversions_below(l: u64, r: u64, n: u64) -> nat
    decreases n,
{
    if n == 0 {
        0
    } else {
        inversions_below(l, r, (n - 1) as u64) + (if bit_at(l, (n - 1) as u64) == 1 {
            count_below(r, (n - 1) as u64)
        } else {
            0
        })
    }
}

/// The transposition count for merging the basis-vector lists of `l` and
/// `r`: the number of pairs of a set bit of `l` and a strictly lower set
/// bit of `r`.
pub open spec fn inversions(l: u64, r: u64) -> nat {
    inversions_below(l, r, 64)
}

/// A pattern with at most its lowest bit set is below every bit of `r`, so
/// it contributes no inversion.
pub proof fn lemma_inversions_unit(l: u64, r: u64, n: u64)
    requires
        l <= 1,
        n <= 64,
    ensures
        inversions_below(l, r, n) == 0,
    decreases n,
{
    if n > 0 {
        let m = (n - 1) as u64;
        lemma_inversions_unit(l, r, m);
        if m >= 1 {
            assert((l >> m) & 1 == 0) by (bit_vector)
                requires
                    l <= 1 && m >= 1,
            ;
        }
    }
}

/// Shifting the left pattern down by one splits the inversion count: the
/// pairs at distance one (counted by the bits `r` shares with `l >> 1`)
/// plus the inversions of the shifted pattern.
pub proof fn lemma_inversions_shift(l: u64, r: u64, n: u64)
    requires
        1 <= n <= 64,
    ensures
        inversions_below(l, r, n) == count_below((l >> 1) & r, (n - 1) as u64) + inversions_below(
            l >> 1,
            r,
            (n - 1) as u64,
        ),
    decreases n,
{
    if n == 1 {
        reveal_with_fuel(count_below, 2);
        reveal_with_fuel(inversions_below, 2);
        assert(inversions_below(l, r, 1) == (if bit_at(l, 0) == 1 {
            count_below(r, 0)
        } else {
            0nat
        }));
    } else {
        lemma_inversions_shift(l, r, (n - 1) as u64);
        let m = (n - 2) as u64;
        let m1 = (n - 1) as u64;
        let s = l >> 1;
        assert((s >> m) & 1 == (l >> m1) & 1) by (bit_vector)
            requires
                s == l >> 1,
                m1 == m + 1,
                m1 < 64,
        ;
        assert((((s & r) >> m) & 1 == 1) == (((s >> m) & 1 == 1) && ((r >> m) & 1 == 1)))
            by (bit_vector);
        assert(bit_at(s, m) == bit_at(l, m1));
        assert(bit_at(s & r, m) == (if bit_at(s, m) == 1 && bit_at(r, m) == 1 {
            1nat
        } else {
            0nat
        }));
        assert(inversions_below(l, r, n) == inversions_below(l, r, m1) + (if bit_at(l, m1) == 1 {
            count_below(r, m1)
        } else {
            0nat
        }));
        assert(count_below((l >> 1) & r, m1) == count_below(s & r, m) + bit_at(s & r, m));
        assert(inversions_below(s, r, m1) == inversions_below(s, r, m) + (if bit_at(s, m) == 1 {
            count_below(r, m)
        } else {
            0nat
        }));
        if bit_at(l, m1) == 1 {
            assert(bit_at(s & r, m) == bit_at(r, m));
            assert(count_below(r, m1) == count_below(r, m) + bit_at(r, m));
        } else {
            assert(bit_at(s & r, m) == 0);
        }
    }
}

/// One step of the product loop: the inversions of (l, r) are the bits `r`
/// shares with `l >> 1` plus the inversions of (l >> 1, r).
pub proof fn lemma_inversions_step(l: u64, r: u64)
    ensures
        inversions(l, r) == popcount64((l >> 1) & r) + inversions(l >> 1, r),
{
    lemma_inversions_shift(l, r, 64);
    let s = l >> 1;
    assert((s >> 63) & 1 == 0 && ((s & r) >> 63) & 1 == 0) by (bit_vector)
        requires
            s == l >> 1,
    ;
    assert(bit_at(s & r, 63) == 0);
    assert(bit_at(s, 63) == 0);
    lemma_count_below_stable(s & r, 63, 64);
    assert(inversions_below(s, r, 64) == inversions_below(s, r, 63));
}

/// The inversion count is bounded by one full column of `r` per bit of `l`:
/// at most 64 * 64 in all.
pub proof fn lemma_inversions_le(l: u64, r: u64, n: u64)
    requires
        n <= 64,
    ensures
        inversions_below(l, r, n) <= n * 64,
    decreases n,
{
    if n > 0 {
        let m = (n - 1) as u64;
        lemma_inversions_le(l, r, m);
        lemma_count_below_le(r, m);
    }
}

/// Symmetric double count: the inversions of (l, r), the inversions of
/// (r, l) and the diagonal pairs (bits shared by both) together count every
/// pair of a set bit of `l` and a set bit of `r`.
pub proof fn lemma_inversions_sym(l: u64, r: u64, n: u64)
    requires
        n <= 64,
    ensures
        inversions_below(l, r, n) + inversions_below(r, l, n) + count_below(l & r, n)
            == count_below(l, n) * count_below(r, n),
    decreases n,
{
    if n > 0 {
        let m = (n - 1) as u64;
        lemma_inversions_sym(l, r, m);
        let a = count_below(l, m);
        let b = count_below(r, m);
        let bl = bit_at(l, m);
        let br = bit_at(r, m);
        assert((((l & r) >> m) & 1 == 1) == (((l >> m) & 1 == 1) && ((r >> m) & 1 == 1)))
            by (bit_vector);
        assert(bit_at(l & r, m) == (if bl == 1 && br == 1 {
            1nat
        } else {
            0nat
        }));
        let cl = count_below(l, n);
        let cr = count_below(r, n);
        assert(cl == a + bl);
        assert(cr == b + br);
        assert(inversions_below(l, r, n) == inversions_below(l, r, m) + (if bl == 1 {
            b
        } else {
            0nat
        }));
        assert(inversions_below(r, l, n) == inversions_below(r, l, m) + (if br == 1 {
            a
        } else {
            0nat
        }));
        assert(count_below(l & r, n) == count_below(l & r, m) + bit_at(l & r, m));
        if bl == 1 {
            if br == 1 {
                assert(cl * cr == a * b + a + b + 1) by (nonlinear_arith)
                    requires
                        cl == a + 1,
                        cr == b + 1,
                ;
                assert(inversions_below(l, r, n) + inversions_below(r, l, n) + count_below(
                    l & r,
                    n,
                ) == a * b + a + b + 1);
            } else {
                assert(cl * cr == a * b + b) by (nonlinear_arith)
                    requires
                        cl == a + 1,
                        cr == b,
                ;
                assert(inversions_below(l, r, n) + inversions_below(r, l, n) + count_below(
                    l & r,
                    n,
                ) == a * b + b);
            }
        } else {
            if br == 1 {
                assert(cl * cr == a * b + a) by (nonlinear_arith)
                    requires
                        cl == a,
                        cr == b + 1,
                ;
                assert(inversions_below(l, r, n) + inversions_below(r, l, n) + count_below(
                    l & r,
                    n,
                ) == a * b + a);
            } else {
                assert(cl * cr == a * b) by (nonlinear_arith)
                    requires
                        cl == a,
                        cr == b,
                ;
                assert(inversions_below(l, r, n) + inversions_below(r, l, n) + count_below(
                    l & r,
                    n,
                ) == a * b);
            }
        }
    } else {
        let zl = count_below(l, 0);
        let zr = count_below(r, 0);
        assert(zl * zr == 0) by (nonlinear_arith)
            requires
                zl == 0,
                zr == 0,
        ;
    }
}

/// For disjoint patterns there are no diagonal pairs: the two inversion
/// counts add up to the product of the population counts. In particular
/// their parities differ exactly when both grades are odd.
pub proof fn lemma_inversions_sym_disjoint(l: u64, r: u64)
    requires
        l & r == 0,
    ensures
        inversions(l, r) + inversions(r, l) == popcount64(l) * popcount64(r),
{
    lemma_inversions_sym(l, r, 64);
    lemma_count_below_zero(64);
}

} // verus!
