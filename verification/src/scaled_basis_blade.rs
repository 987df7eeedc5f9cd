//! Scaled basis blades: a scalar coefficient paired with a unit blade.

use vstd::prelude::*;
use crate::dimension::BladeError;
use crate::dimension::dimension_mask;
use crate::dimension::valid_dimension;
use crate::num::Real;
use crate::unit_basis_blade::UnitBasisBlade;

verus! {

/// A basis blade carrying a scalar coefficient.
///
/// Canonical zero invariant: whenever the scale is 0 or the blade is empty,
/// the value is the pair (0, empty blade) — no other representation of "no
/// contribution" exists, so all zero-producing inputs compare equal.
#[derive(Clone, Copy, Debug, PartialEq, Eq, Structural)]
pub struct ScaledBasisBlade {
    /// The scalar coefficient.
    pub scale: i64,
    /// The unscaled blade it multiplies.
    pub unit_basis_blade: UnitBasisBlade,
}

impl ScaledBasisBlade {
    /// Well-formed: the unit blade is well-formed and the canonical-zero
    /// invariant holds — a zero scale and an empty blade imply each other.
    pub open spec fn wf(&self) -> bool {
        self.unit_basis_blade.wf() && (self.scale == 0 <==> self.unit_basis_blade.bitset == 0)
    }

    /// The canonical zero of dimension `dim`, as a value.
    pub open spec fn spec_zero(dim: u8) -> ScaledBasisBlade {
        ScaledBasisBlade { scale: 0, unit_basis_blade: UnitBasisBlade { dim, bitset: 0 } }
    }

    /// What the canonicalizing constructor returns: the canonical zero when
    /// the scale is 0 or the blade is empty, the pair itself otherwise.
    pub open spec fn spec_new(scale: i64, unit_basis_blade: UnitBasisBlade) -> ScaledBasisBlade {
        if scale == 0 || unit_basis_blade.bitset == 0 {
            ScaledBasisBlade::spec_zero(unit_basis_blade.dim)
        } else {
            ScaledBasisBlade { scale, unit_basis_blade }
        }
    }

    /// The canonical zero of the given dimension.
    pub fn zero(dim: u8) -> (r: Result<Self, BladeError>)
        ensures
            valid_dimension(dim) ==> r == Ok::<Self, BladeError>(Self::spec_zero(dim)),
            valid_dimension(dim) ==> (r matches Ok(z) && z.wf()),
            !valid_dimension(dim) ==> r == Err::<Self, BladeError>(BladeError::OutOfRangeDimension),
    {
        match UnitBasisBlade::zero(dim) {
            Ok(b) => {
                let s: i64 = Real::zero();
                Ok(ScaledBasisBlade { scale: s, unit_basis_blade: b })
            },
            Err(e) => Err(e),
        }
    }

    /// The only canonicalizing constructor: collapses every zero-producing
    /// input — a zero scale or an empty blade — to the canonical zero of the
    /// blade's dimension, and keeps any other pair unchanged.
    pub fn new(scale: i64, unit_basis_blade: UnitBasisBlade) -> (r: Self)
        requires
            unit_basis_blade.wf(),
        ensures
            r == Self::spec_new(scale, unit_basis_blade),
            r.wf(),
    {
        if unit_basis_blade.is_zero() || scale.is_zero() {
            proof {
                let m = dimension_mask(unit_basis_blade.dim);
                assert(0u64 & m == 0u64) by (bit_vector);
            }
            let z: i64 = Real::zero();
            ScaledBasisBlade {
                scale: z,
                unit_basis_blade: UnitBasisBlade { dim: unit_basis_blade.dimension(), bitset: 0 },
            }
        } else {
            ScaledBasisBlade { scale, unit_basis_blade }
        }
    }

    /// The scalar coefficient.
    pub fn scale(&self) -> (r: i64)
        ensures
            r == self.scale,
    {
        self.scale
    }

    /// The unscaled blade.
    pub fn unit_basis_blade(&self) -> (r: &UnitBasisBlade)
        ensures
            *r == self.unit_basis_blade,
    {
        &self.unit_basis_blade
    }

    /// Whether this is the canonical zero. Under the canonical-zero
    /// invariant, testing the scale alone suffices.
    pub fn is_zero(&self) -> (r: bool)
        ensures
            r == (self.scale == 0),
    {
        self.scale.is_zero()
    }
}

/// Lifts a unit blade to a scaled blade with scale one.
impl From<UnitBasisBlade> for ScaledBasisBlade {
    fn from(unit_basis_blade: UnitBasisBlade) -> (r: Self) {
        if unit_basis_blade.is_zero() {
            ScaledBasisBlade {
                scale: 0,
                unit_basis_blade: UnitBasisBlade { dim: unit_basis_blade.dimension(), bitset: 0 },
            }
        } else {
            let s: i64 = Real::one();
            ScaledBasisBlade { scale: s, unit_basis_blade }
        }
    }
}

impl vstd::std_specs::convert::FromSpecImpl<UnitBasisBlade> for ScaledBasisBlade {
    open spec fn obeys_from_spec() -> bool {
        true
    }

    open spec fn from_spec(unit_basis_blade: UnitBasisBlade) -> Self {
        ScaledBasisBlade::spec_new(1, unit_basis_blade)
    }
}

/// Lifts a (scale, blade) pair through the canonicalizing construction.
impl From<(i64, UnitBasisBlade)> for ScaledBasisBlade {
    fn from(tuple: (i64, UnitBasisBlade)) -> (r: Self) {
        let (scale, unit_basis_blade) = tuple;
        if unit_basis_blade.is_zero() || scale == 0 {
            ScaledBasisBlade {
                scale: 0,
                unit_basis_blade: UnitBasisBlade { dim: unit_basis_blade.dimension(), bitset: 0 },
            }
        } else {
            ScaledBasisBlade { scale, unit_basis_blade }
        }
    }
}

impl vstd::std_specs::convert::FromSpecImpl<(i64, UnitBasisBlade)> for ScaledBasisBlade {
    open spec fn obeys_from_spec() -> bool {
        true
    }

    open spec fn from_spec(tuple: (i64, UnitBasisBlade)) -> Self {
        ScaledBasisBlade::spec_new(tuple.0, tuple.1)
    }
}

} // verus!
