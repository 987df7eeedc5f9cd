//! The algebraic laws the blade types and products satisfy, proved once and
//! for all inputs.

use vstd::prelude::*;
use crate::dimension::Grade;
use crate::dimension::BladeError;
use crate::dimension::bit_at;
use crate::dimension::dimension_mask;
use crate::dimension::lemma_count_below_or_disjoint;
use crate::dimension::lemma_masked_popcount_le;
use crate::dimension::popcount64;
use crate::ops::product_bitset;
use crate::ops::product_ok;
use crate::ops::product_result;
use crate::ops::product_scale;
use crate::scaled_basis_blade::ScaledBasisBlade;
use crate::sign::inversions;
use crate::sign::lemma_inversions_sym_disjoint;
use crate::unit_basis_blade::UnitBasisBlade;

verus! {

/// Masking: a well-formed blade — in particular anything built by the
/// constructors, which truncate under the dimension mask — has no bit set
/// at or above its dimension.
pub proof fn lemma_masking(b: UnitBasisBlade)
    requires
        b.wf(),
    ensures
        forall|i: u64| b.dim <= i ==> bit_at(b.bitset, i) == 0,
{
    let x = b.bitset;
    let d = b.dim;
    assert forall|i: u64| d <= i implies bit_at(x, i) == 0 by {
        if i < 64 {
            let dd = d as u64;
            assert((x >> i) & 1 == 0) by (bit_vector)
                requires
                    x & (if dd >= 64 {
                        0xffff_ffff_ffff_ffffu64
                    } else {
                        ((1u64 << dd) - 1) as u64
                    }) == x,
                    dd <= i < 64,
            ;
        }
    }
}

/// Grade correctness: the grade of a well-formed blade is the population
/// count of its bit pattern and lies between 0 and the dimension.
pub proof fn lemma_grade_in_range(b: UnitBasisBlade)
    requires
        b.wf(),
    ensures
        b.grade_spec() == popcount64(b.bitset),
        b.grade_spec() <= b.dim,
{
    lemma_masked_popcount_le(b.bitset, b.dim);
}

/// Canonical zero: every zero-producing construction — a zero scale or an
/// empty blade — yields the one canonical zero of its dimension, and that
/// value tests as zero.
pub proof fn lemma_canonical_zero(scale: i64, b: UnitBasisBlade)
    requires
        b.wf(),
    ensures
        (scale == 0 || b.bitset == 0) ==> ScaledBasisBlade::spec_new(scale, b)
            == ScaledBasisBlade::spec_zero(b.dim),
        ScaledBasisBlade::spec_zero(b.dim).scale == 0,
        ScaledBasisBlade::spec_zero(b.dim).wf(),
{
    let m = dimension_mask(b.dim);
    assert(0u64 & m == 0u64) by (bit_vector);
}

/// Self-annihilation: combining any well-formed scaled blade with itself —
/// shared basis vectors, or the canonical zero — produces the canonical
/// zero, under either product (both run the same routine).
pub proof fn lemma_self_annihilation(x: ScaledBasisBlade)
    requires
        x.wf(),
    ensures
        product_result(x, x) == Ok::<ScaledBasisBlade, BladeError>(
            ScaledBasisBlade::spec_zero(x.unit_basis_blade.dim),
        ),
{
    let b = x.unit_basis_blade.bitset;
    assert(b & b == b && (b | b) == b) by (bit_vector);
}

/// Scalar zero absorption: a canonical-zero operand — as produced by
/// scaling either factor by zero — absorbs the product on both sides.
pub proof fn lemma_zero_absorption(a: ScaledBasisBlade, b: ScaledBasisBlade)
    requires
        a.wf(),
        b.wf(),
        product_ok(a, b),
        a.scale == 0,
    ensures
        product_result(a, b) == Ok::<ScaledBasisBlade, BladeError>(
            ScaledBasisBlade::spec_zero(a.unit_basis_blade.dim),
        ),
        product_result(b, a) == Ok::<ScaledBasisBlade, BladeError>(
            ScaledBasisBlade::spec_zero(a.unit_basis_blade.dim),
        ),
{
    let rb = b.unit_basis_blade.bitset;
    assert(0u64 & rb == 0 && rb & 0u64 == 0 && (0u64 | rb) == rb && (rb | 0u64) == rb)
        by (bit_vector);
    let s = b.scale;
    assert(0 * s == 0 && s * 0 == 0) by (nonlinear_arith);
}

/// Graded commutation: for disjoint well-formed operands of one dimension
/// the two product orders have the same support, and their scales agree up
/// to the sign given by the product of the grades: equal when
/// grade(a) * grade(b) is even, opposite when it is odd.
pub proof fn lemma_product_commutation(a: ScaledBasisBlade, b: ScaledBasisBlade)
    requires
        a.wf(),
        b.wf(),
        product_ok(a, b),
        a.unit_basis_blade.bitset & b.unit_basis_blade.bitset == 0,
    ensures
        product_ok(b, a),
        product_bitset(b, a) == product_bitset(a, b),
        (popcount64(a.unit_basis_blade.bitset) * popcount64(b.unit_basis_blade.bitset)) % 2 == 0
            ==> product_scale(b, a) == product_scale(a, b),
        (popcount64(a.unit_basis_blade.bitset) * popcount64(b.unit_basis_blade.bitset)) % 2 == 1
            ==> product_scale(b, a) == -product_scale(a, b),
{
    let la = a.unit_basis_blade.bitset;
    let lb = b.unit_basis_blade.bitset;
    assert(lb & la == 0 && (lb | la) == (la | lb)) by (bit_vector)
        requires
            la & lb == 0,
    ;
    let sa = a.scale;
    let sb = b.scale;
    assert(sa * sb == sb * sa) by (nonlinear_arith);
    lemma_inversions_sym_disjoint(la, lb);
    let ia = inversions(la, lb);
    let ib = inversions(lb, la);
    let p = popcount64(la) * popcount64(lb);
    assert(ia + ib == p);
    if p % 2 == 0 {
        assert(ia % 2 == ib % 2);
    } else {
        assert(ia % 2 != ib % 2);
    }
}

/// Anti-symmetry: for disjoint nonzero well-formed operands whose grades
/// are both odd, swapping the operands flips the sign of the product and
/// keeps its support; the support's grade is the sum of the grades.
pub proof fn lemma_antisymmetry(a: ScaledBasisBlade, b: ScaledBasisBlade)
    requires
        a.wf(),
        b.wf(),
        product_ok(a, b),
        a.unit_basis_blade.bitset & b.unit_basis_blade.bitset == 0,
        a.scale != 0,
        b.scale != 0,
        popcount64(a.unit_basis_blade.bitset) % 2 == 1,
        popcount64(b.unit_basis_blade.bitset) % 2 == 1,
    ensures
        product_scale(b, a) == -product_scale(a, b),
        product_scale(b, a) != 0,
        product_bitset(b, a) == product_bitset(a, b),
        popcount64(product_bitset(a, b)) == popcount64(a.unit_basis_blade.bitset) + popcount64(
            b.unit_basis_blade.bitset,
        ),
{
    lemma_product_commutation(a, b);
    let ga = popcount64(a.unit_basis_blade.bitset);
    let gb = popcount64(b.unit_basis_blade.bitset);
    let ka = ga / 2;
    let kb = gb / 2;
    assert(ga == 2 * ka + 1 && gb == 2 * kb + 1);
    assert((2 * ka + 1) * (2 * kb + 1) == 2 * (2 * ka * kb + ka + kb) + 1) by (nonlinear_arith);
    assert((ga * gb) % 2 == 1);
    lemma_product_grade_sum(a, b);
    assert(product_scale(a, b) != 0) by {
        let sa = a.scale;
        let sb = b.scale;
        assert(sa * sb != 0) by (nonlinear_arith)
            requires
                sa != 0,
                sb != 0,
        ;
        let la = a.unit_basis_blade.bitset;
        let lb = b.unit_basis_blade.bitset;
        assert(la != 0 ==> (la | lb) != 0) by (bit_vector);
    }
}

/// For disjoint nonzero operands the product's support carries every basis
/// vector of both: its grade is the sum of the two grades.
pub proof fn lemma_product_grade_sum(a: ScaledBasisBlade, b: ScaledBasisBlade)
    requires
        a.wf(),
        b.wf(),
        product_ok(a, b),
        a.unit_basis_blade.bitset & b.unit_basis_blade.bitset == 0,
        a.scale != 0,
        b.scale != 0,
    ensures
        popcount64(product_bitset(a, b)) == popcount64(a.unit_basis_blade.bitset) + popcount64(
            b.unit_basis_blade.bitset,
        ),
{
    let sa = a.scale;
    let sb = b.scale;
    assert(sa * sb != 0) by (nonlinear_arith)
        requires
            sa != 0,
            sb != 0,
    ;
    lemma_count_below_or_disjoint(
        a.unit_basis_blade.bitset,
        b.unit_basis_blade.bitset,
        64,
    );
}

} // verus!

