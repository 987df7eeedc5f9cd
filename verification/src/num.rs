//! The real-number capability consumed by scaled blades.
//!
//! Scaled blades are generic in spirit over any scalar supplying a zero, a
//! one, a zero test, multiplication and negation. That capability is stated
//! here as a trait whose scalars are modelled by the integer they stand for;
//! the library ships the `i64` model of it.

use vstd::prelude::*;

verus! {

/// The minimal scalar interface the blade product needs: additive and
/// multiplicative identities, a zero test, multiplication and negation.
pub trait Real: Sized + Copy {
    /// The mathematical value this scalar stands for.
    spec fn rv(self) -> int;

    /// When the product of `self` and `rhs` stays representable.
    spec fn can_mul(self, rhs: Self) -> bool;

    /// When the negation of `self` stays representable.
    spec fn can_neg(self) -> bool;

    /// The additive identity.
    fn zero() -> (r: Self)
        ensures
            r.rv() == 0,
    ;

    /// The multiplicative identity.
    fn one() -> (r: Self)
        ensures
            r.rv() == 1,
    ;

    /// Whether this scalar is the additive identity.
    fn is_zero(&self) -> (r: bool)
        ensures
            r == (self.rv() == 0),
    ;

    /// The product of two scalars.
    fn times(self, rhs: Self) -> (r: Self)
        requires
            self.can_mul(rhs),
        ensures
            r.rv() == self.rv() * rhs.rv(),
    ;

    /// The additive inverse of this scalar.
    fn negate(self) -> (r: Self)
        requires
            self.can_neg(),
        ensures
            r.rv() == -self.rv(),
    ;
}

impl Real for i64 {
    open spec fn rv(self) -> int {
        self as int
    }

    open spec fn can_mul(self, rhs: Self) -> bool {
        i64::MIN <= self * rhs <= i64::MAX
    }

    open spec fn can_neg(self) -> bool {
        self != i64::MIN
    }

    fn zero() -> (r: Self) {
        0
    }

    fn one() -> (r: Self) {
        1
    }

    fn is_zero(&self) -> (r: bool) {
        *self == 0
    }

    fn times(self, rhs: Self) -> (r: Self) {
        self * rhs
    }

    fn negate(self) -> (r: Self) {
        -self
    }
}

} // verus!
