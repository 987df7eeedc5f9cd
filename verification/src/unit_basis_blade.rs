//! Unscaled basis blades: bit-encoded subsets of the basis vectors.

use vstd::prelude::*;
use crate::dimension::BitsetMask;
use crate::dimension::BladeError;
use crate::dimension::CountBits;
use crate::dimension::Dimension;
use crate::dimension::Grade;
use crate::dimension::bit_at;
use crate::dimension::dimension_mask;
use crate::dimension::popcount64;
use crate::dimension::valid_dimension;

verus! {

/// An unscaled basis blade of an n-dimensional space: bit `i` of `bitset`
/// set means basis vector `i` participates in the blade. The blade carries
/// the dimension it was built against; bits at or above it are always clear.
#[derive(Clone, Copy, Debug, PartialEq, Eq, Structural)]
pub struct UnitBasisBlade {
    /// The dimension this blade was built against.
    pub dim: u8,
    /// The bit pattern encoding the blade.
    pub bitset: u64,
}

impl UnitBasisBlade {
    /// Well-formed: a supported dimension, and no bit at or above it.
    pub open spec fn wf(&self) -> bool {
        valid_dimension(self.dim) && self.bitset & dimension_mask(self.dim)
            == self.bitset
    }

    /// The empty blade (no basis vectors) of the given dimension.
    pub fn zero(dim: u8) -> (r: Result<Self, BladeError>)
        ensures
            valid_dimension(dim) ==> (r matches Ok(b) && b.dim == dim && b.bitset
                == 0 && b.wf()),
            !valid_dimension(dim) ==> r == Err::<Self, BladeError>(BladeError::OutOfRangeDimension),
    {
        if !dim.is_supported() {
            return Err(BladeError::OutOfRangeDimension);
        }
        proof {
            let m = dimension_mask(dim);
            assert(0u64 & m == 0u64) by (bit_vector);
        }
        Ok(UnitBasisBlade { dim, bitset: 0 })
    }

    /// Builds a blade from a raw bit pattern; bits at or above `dim` are
    /// silently discarded (documented truncation, not an error).
    pub fn new(dim: u8, bitset: u64) -> (r: Result<Self, BladeError>)
        ensures
            valid_dimension(dim) ==> (r matches Ok(b) && b.dim == dim && b.bitset
                == bitset & dimension_mask(dim) && b.wf()),
            !valid_dimension(dim) ==> r == Err::<Self, BladeError>(BladeError::OutOfRangeDimension),
    {
        if !dim.is_supported() {
            return Err(BladeError::OutOfRangeDimension);
        }
        let mask = dim.bitset_mask();
        proof {
            assert((bitset & mask) & mask == bitset & mask) by (bit_vector);
        }
        Ok(UnitBasisBlade { dim, bitset: bitset & mask })
    }

    /// Builds a blade from one membership flag per basis vector: bit `i` is
    /// set exactly when `flags[i]` is true. The sequence's length must equal
    /// the dimension.
    pub fn from_membership(dim: u8, flags: &Vec<bool>) -> (r: Result<Self, BladeError>)
        ensures
            !valid_dimension(dim) ==> r == Err::<Self, BladeError>(BladeError::OutOfRangeDimension),
            valid_dimension(dim) && flags@.len() != dim ==> r == Err::<Self, BladeError>(
                BladeError::DimensionMismatch,
            ),
            valid_dimension(dim) && flags@.len() == dim ==> (r matches Ok(b) && b.dim == dim
                && b.wf() && forall|j: u64|
                j < 64 ==> bit_at(b.bitset, j) == (if j < dim && flags@[j as int] {
                    1nat
                } else {
                    0nat
                })),
    {
        if !dim.is_supported() {
            return Err(BladeError::OutOfRangeDimension);
        }
        if flags.len() != dim as usize {
            return Err(BladeError::DimensionMismatch);
        }
        let mut bits: u64 = 0;
        let mut i: usize = 0;
        proof {
            assert forall|j: u64| j < 64 implies bit_at(0u64, j) == 0 by {
                assert((0u64 >> j) & 1 == 0) by (bit_vector);
            }
            let m = dimension_mask(dim);
            assert(0u64 & m == 0u64) by (bit_vector);
        }
        while i < flags.len()
            invariant
                valid_dimension(dim),
                flags@.len() == dim,
                i <= flags@.len(),
                bits & dimension_mask(dim) == bits,
                forall|j: u64|
                    j < 64 ==> bit_at(bits, j) == (if j < i && flags@[j as int] {
                        1nat
                    } else {
                        0nat
                    }),
            decreases flags@.len() - i,
        {
            if flags[i] {
                let sh: u64 = i as u64;
                let updated: u64 = bits | (1u64 << sh);
                proof {
                    assert forall|j: u64| j < 64 implies bit_at(updated, j) == (if j == sh {
                        1nat
                    } else {
                        bit_at(bits, j)
                    }) by {
                        assert(((bits | (1u64 << sh)) >> j) & 1 == (if j == sh {
                            1u64
                        } else {
                            (bits >> j) & 1
                        })) by (bit_vector)
                            requires
                                sh < 64 && j < 64,
                        ;
                        assert((bits >> j) & 1 <= 1) by (bit_vector);
                    }
                    if dim < 64 {
                        let dd = dim as u64;
                        assert((bits | (1u64 << sh)) & (((1u64 << dd) - 1) as u64) == (bits | (1u64
                            << sh))) by (bit_vector)
                            requires
                                bits & (((1u64 << dd) - 1) as u64) == bits,
                                sh < dd,
                                dd < 64,
                        ;
                    } else {
                        assert((bits | (1u64 << sh)) & 0xffff_ffff_ffff_ffffu64 == (bits | (1u64
                            << sh))) by (bit_vector);
                    }
                }
                bits = updated;
            }
            i = i + 1;
        }
        Ok(UnitBasisBlade { dim, bitset: bits })
    }

    /// Whether basis vector `index` (counted from 0) participates in this
    /// blade. Indices at or past the encoding width read as absent.
    pub fn contains_basis_vector(&self, index: u8) -> (r: bool)
        ensures
            r == (bit_at(self.bitset, index as u64) == 1),
    {
        if index >= 64 {
            false
        } else {
            ((self.bitset >> (index as u64)) & 1) == 1
        }
    }

    /// The membership flags of this blade, one per basis vector.
    pub fn basis_vectors(&self) -> (r: Vec<bool>)
        requires
            self.wf(),
        ensures
            r@.len() == self.dim,
            forall|j: int|
                0 <= j < self.dim ==> r@[j] == (bit_at(self.bitset, j as u64) == 1),
    {
        let mut out: Vec<bool> = Vec::new();
        let mut i: u8 = 0;
        while i < self.dim
            invariant
                self.wf(),
                i <= self.dim,
                out@.len() == i,
                forall|j: int|
                    0 <= j < i ==> out@[j] == (bit_at(self.bitset, j as u64) == 1),
            decreases self.dim - i,
        {
            out.push(((self.bitset >> (i as u64)) & 1) == 1);
            i = i + 1;
        }
        out
    }

    /// The raw bit pattern.
    pub fn bitset(&self) -> (r: u64)
        ensures
            r == self.bitset,
    {
        self.bitset
    }

    /// The dimension this blade was built against.
    pub fn dimension(&self) -> (r: u8)
        ensures
            r == self.dim,
    {
        self.dim
    }

    /// Whether this is the empty blade.
    pub fn is_zero(&self) -> (r: bool)
        ensures
            r == (self.bitset == 0),
    {
        self.bitset == 0
    }

    /// The blade made of the basis vectors shared by both operands
    /// (bitwise AND). The operands must agree on the dimension.
    pub fn meet(&self, other: &Self) -> (r: Result<Self, BladeError>)
        requires
            self.wf(),
            other.wf(),
        ensures
            self.dim == other.dim ==> (r matches Ok(b) && b.dim
                == self.dim && b.bitset == (self.bitset & other.bitset)
                && b.wf()),
            self.dim != other.dim ==> r == Err::<Self, BladeError>(
                BladeError::DimensionMismatch,
            ),
    {
        if self.dim != other.dim {
            return Err(BladeError::DimensionMismatch);
        }
        proof {
            let m = dimension_mask(self.dim);
            let a = self.bitset;
            let b = other.bitset;
            assert((a & b) & m == (a & b)) by (bit_vector)
                requires
                    a & m == a,
            ;
        }
        Ok(UnitBasisBlade { dim: self.dim, bitset: self.bitset & other.bitset })
    }

    /// The blade made of the basis vectors of either operand (bitwise OR).
    /// The operands must agree on the dimension.
    pub fn join(&self, other: &Self) -> (r: Result<Self, BladeError>)
        requires
            self.wf(),
            other.wf(),
        ensures
            self.dim == other.dim ==> (r matches Ok(b) && b.dim
                == self.dim && b.bitset == (self.bitset | other.bitset)
                && b.wf()),
            self.dim != other.dim ==> r == Err::<Self, BladeError>(
                BladeError::DimensionMismatch,
            ),
    {
        if self.dim != other.dim {
            return Err(BladeError::DimensionMismatch);
        }
        proof {
            let m = dimension_mask(self.dim);
            let a = self.bitset;
            let b = other.bitset;
            assert((a | b) & m == (a | b)) by (bit_vector)
                requires
                    a & m == a,
                    b & m == b,
            ;
        }
        Ok(UnitBasisBlade { dim: self.dim, bitset: self.bitset | other.bitset })
    }

    /// The blade made of the basis vectors in exactly one operand (bitwise
    /// XOR). The operands must agree on the dimension.
    pub fn symmetric_difference(&self, other: &Self) -> (r: Result<Self, BladeError>)
        requires
            self.wf(),
            other.wf(),
        ensures
            self.dim == other.dim ==> (r matches Ok(b) && b.dim
                == self.dim && b.bitset == (self.bitset ^ other.bitset)
                && b.wf()),
            self.dim != other.dim ==> r == Err::<Self, BladeError>(
                BladeError::DimensionMismatch,
            ),
    {
        if self.dim != other.dim {
            return Err(BladeError::DimensionMismatch);
        }
        proof {
            let m = dimension_mask(self.dim);
            let a = self.bitset;
            let b = other.bitset;
            assert((a ^ b) & m == (a ^ b)) by (bit_vector)
                requires
                    a & m == a,
                    b & m == b,
            ;
        }
        Ok(UnitBasisBlade { dim: self.dim, bitset: self.bitset ^ other.bitset })
    }
}

impl Grade for UnitBasisBlade {
    open spec fn grade_spec(&self) -> nat {
        popcount64(self.bitset)
    }

    fn grade(&self) -> (r: u8) {
        self.bitset.count_bits()
    }
}

} // verus!
