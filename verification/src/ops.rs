//! The blade products: geometric and outer (wedge), one shared routine.
//!
//! Both products follow the same rule: operands sharing a basis vector
//! annihilate (the linear-dependency rule — which is why the two products
//! compute identically in this algebra), otherwise the scales multiply, the
//! supports merge, and the sign flips when the transposition count needed
//! to interleave the two ascending basis-vector lists is odd.

use vstd::prelude::*;
use crate::dimension::BladeError;
use crate::dimension::CountBits;
use crate::dimension::dimension_mask;
use crate::dimension::valid_dimension;
use crate::num::Real;
use crate::scaled_basis_blade::ScaledBasisBlade;
use crate::sign::inversions;
use crate::sign::lemma_inversions_le;
use crate::sign::lemma_inversions_step;
use crate::sign::lemma_inversions_unit;
use crate::unit_basis_blade::UnitBasisBlade;

verus! {

/// Whether two scaled blades can be combined: their dimensions agree.
pub open spec fn product_ok(l: ScaledBasisBlade, r: ScaledBasisBlade) -> bool {
    l.unit_basis_blade.dim == r.unit_basis_blade.dim
}

/// The mathematical scale of the product: zero when the operands share a
/// basis vector or nothing is left to support the result, otherwise the
/// product of the scales, negated when the transposition count is odd.
pub open spec fn product_scale(l: ScaledBasisBlade, r: ScaledBasisBlade) -> int {
    let lb = l.unit_basis_blade.bitset;
    let rb = r.unit_basis_blade.bitset;
    if lb & rb != 0 || lb | rb == 0 {
        0
    } else if inversions(lb, rb) % 2 == 0 {
        l.scale * r.scale
    } else {
        -(l.scale * r.scale)
    }
}

/// The support of the product: empty when the operands share a basis
/// vector or a scale is zero, otherwise the union of the supports.
pub open spec fn product_bitset(l: ScaledBasisBlade, r: ScaledBasisBlade) -> u64 {
    let lb = l.unit_basis_blade.bitset;
    let rb = r.unit_basis_blade.bitset;
    if lb & rb != 0 || l.scale * r.scale == 0 {
        0
    } else {
        lb | rb
    }
}

/// The value the shared product routine returns: an error exactly on a
/// dimension mismatch, otherwise the scaled blade made of `product_scale`
/// and `product_bitset` in the operands' dimension.
pub open spec fn product_result(l: ScaledBasisBlade, r: ScaledBasisBlade) -> Result<
    ScaledBasisBlade,
    BladeError,
> {
    if !product_ok(l, r) {
        Err(BladeError::DimensionMismatch)
    } else {
        Ok(
            ScaledBasisBlade {
                scale: product_scale(l, r) as i64,
                unit_basis_blade: UnitBasisBlade {
                    dim: l.unit_basis_blade.dim,
                    bitset: product_bitset(l, r),
                },
            },
        )
    }
}

/// The one machine limit on the product: where a scale multiplication will
/// actually happen, its result and that result's negation must be
/// representable.
pub open spec fn product_fits(l: ScaledBasisBlade, r: ScaledBasisBlade) -> bool {
    (product_ok(l, r) && l.unit_basis_blade.bitset & r.unit_basis_blade.bitset == 0)
        ==> -i64::MAX <= l.scale * r.scale <= i64::MAX
}

/// The canonical zero of an already validated dimension.
fn canonical_zero(dim: u8) -> (r: ScaledBasisBlade)
    requires
        valid_dimension(dim),
    ensures
        r == ScaledBasisBlade::spec_zero(dim),
        r.wf(),
{
    proof {
        let m = dimension_mask(dim);
        assert(0u64 & m == 0u64) by (bit_vector);
    }
    let z: i64 = Real::zero();
    ScaledBasisBlade { scale: z, unit_basis_blade: UnitBasisBlade { dim, bitset: 0 } }
}

/// The shared product routine behind both products.
fn blade_product(lhs: &ScaledBasisBlade, rhs: &ScaledBasisBlade) -> (r: Result<
    ScaledBasisBlade,
    BladeError,
>)
    requires
        lhs.wf(),
        rhs.wf(),
        product_fits(*lhs, *rhs),
    ensures
        r == product_result(*lhs, *rhs),
        (r matches Ok(p) ==> p.wf()),
{
    if lhs.unit_basis_blade().dimension() != rhs.unit_basis_blade().dimension() {
        return Err(BladeError::DimensionMismatch);
    }
    let dim: u8 = lhs.unit_basis_blade().dimension();
    let mut lbs: u64 = lhs.unit_basis_blade().bitset();
    let rbs: u64 = rhs.unit_basis_blade().bitset();

    // Linearly dependent operands annihilate.
    if lbs & rbs != 0 {
        return Ok(canonical_zero(dim));
    }
    let scale: i64 = lhs.scale().times(rhs.scale());
    if scale.is_zero() {
        return Ok(canonical_zero(dim));
    }
    let merged: u64 = lbs | rbs;
    let ghost l0: u64 = lbs;
    let mut total_swaps: u32 = 0;
    proof {
        lemma_inversions_le(l0, rbs, 64);
    }
    while lbs > 1
        invariant
            total_swaps as nat + inversions(lbs, rbs) == inversions(l0, rbs),
            inversions(l0, rbs) <= 64 * 64,
        decreases lbs,
    {
        proof {
            lemma_inversions_step(lbs, rbs);
            assert(lbs >> 1 < lbs) by (bit_vector)
                requires
                    lbs > 1,
            ;
        }
        lbs = lbs >> 1;
        total_swaps = total_swaps + (lbs & rbs).count_bits() as u32;
    }
    proof {
        lemma_inversions_unit(lbs, rbs, 64);
        assert(total_swaps as nat == inversions(l0, rbs));
        if lhs.scale == 0 {
            assert(lhs.scale * rhs.scale == 0);
        }
        let a = l0;
        let b = rbs;
        let m = dimension_mask(dim);
        assert((a | b) & m == (a | b)) by (bit_vector)
            requires
                a & m == a,
                b & m == b,
        ;
        assert(a != 0 ==> (a | b) != 0) by (bit_vector);
    }
    // Negate the scale when the number of transpositions is odd.
    let signed: i64 = if total_swaps % 2 == 0 {
        scale
    } else {
        scale.negate()
    };
    let blade = UnitBasisBlade { dim, bitset: merged };
    Ok(ScaledBasisBlade::new(signed, blade))
}

/// The geometric product of two values.
pub trait GeometricProduct: Sized {
    /// What the operands must satisfy before the product is taken.
    spec fn geom_req(&self, rhs: &Self) -> bool;

    /// What the returned value satisfies.
    spec fn geom_ensures(&self, rhs: &Self, r: Result<Self, BladeError>) -> bool;

    /// The geometric product of `self` and `rhs`, in that order.
    fn geom(&self, rhs: &Self) -> (r: Result<Self, BladeError>)
        requires
            self.geom_req(rhs),
        ensures
            self.geom_ensures(rhs, r),
    ;
}

/// The outer (wedge) product of two values.
pub trait OuterProduct: Sized {
    /// What the operands must satisfy before the product is taken.
    spec fn outer_req(&self, rhs: &Self) -> bool;

    /// What the returned value satisfies.
    spec fn outer_ensures(&self, rhs: &Self, r: Result<Self, BladeError>) -> bool;

    /// The outer product of `self` and `rhs`, in that order.
    fn outer(&self, rhs: &Self) -> (r: Result<Self, BladeError>)
        requires
            self.outer_req(rhs),
        ensures
            self.outer_ensures(rhs, r),
    ;
}

impl GeometricProduct for ScaledBasisBlade {
    open spec fn geom_req(&self, rhs: &Self) -> bool {
        self.wf() && rhs.wf() && product_fits(*self, *rhs)
    }

    open spec fn geom_ensures(&self, rhs: &Self, r: Result<Self, BladeError>) -> bool {
        r == product_result(*self, *rhs) && (r matches Ok(p) ==> p.wf())
    }

    fn geom(&self, rhs: &Self) -> (r: Result<Self, BladeError>) {
        blade_product(self, rhs)
    }
}

impl OuterProduct for ScaledBasisBlade {
    open spec fn outer_req(&self, rhs: &Self) -> bool {
        self.wf() && rhs.wf() && product_fits(*self, *rhs)
    }

    open spec fn outer_ensures(&self, rhs: &Self, r: Result<Self, BladeError>) -> bool {
        r == product_result(*self, *rhs) && (r matches Ok(p) ==> p.wf())
    }

    fn outer(&self, rhs: &Self) -> (r: Result<Self, BladeError>) {
        blade_product(self, rhs)
    }
}

} // verus!
