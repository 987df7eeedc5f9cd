//! Basis blades of an n-dimensional geometric (Clifford/exterior) algebra.
//!
//! A basis blade is a product of distinct basis vectors of the ambient
//! space, encoded here as a bit pattern: bit `i` set means basis vector `i`
//! participates. A [`unit_basis_blade::UnitBasisBlade`] is such a pattern
//! together with the dimension it was built against; a
//! [`scaled_basis_blade::ScaledBasisBlade`] pairs it with a scalar
//! coefficient, normalised so that every zero contribution has one
//! canonical representation. The geometric and outer (wedge) products of
//! two scaled blades run one shared routine: overlapping blades
//! annihilate, disjoint ones merge with a sign given by the parity of the
//! transposition count needed to interleave their basis vectors. The
//! [`laws`] module states and proves the algebraic laws of all of this.

pub mod dimension;
pub mod num;
pub mod unit_basis_blade;
pub mod scaled_basis_blade;
pub mod sign;
pub mod ops;
pub mod laws;

pub use dimension::BitsetMask;
pub use dimension::BladeError;
pub use dimension::CountBits;
pub use dimension::Dimension;
pub use dimension::Grade;
pub use num::Real;
pub use unit_basis_blade::UnitBasisBlade;
pub use scaled_basis_blade::ScaledBasisBlade;
pub use ops::GeometricProduct;
pub use ops::OuterProduct;
