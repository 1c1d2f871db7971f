//! The number system the simulation is written against.
//!
//! Every quantity of the model (a coordinate, a mass, a time step) is a value
//! of one type that offers the operations below. Each operation is a pure
//! function of its operands: its result is named by a specification function
//! of the same type, and the contracts of the whole library are stated over
//! those names. Nothing is assumed of the arithmetic beyond that and the one
//! law `zero_is_not_positive`, so an implementation with rounding, overflow
//! or unordered values is as welcome as an exact one.
//!
//! An implementation in this crate is held to these contracts by the
//! verifier; `Fixed` is. One that is compiled elsewhere is taken at its
//! word: what is proved of the library holds of it as far as each of its
//! operations returns the same value for the same operands, and zero is not
//! strictly below zero.
use vstd::prelude::*;

verus! {

pub trait Scalar: Copy + Sized {
    /// The additive identity, the mass of an empty cell.
    spec fn zero_spec() -> Self;

    /// The constant by which an interval is bisected.
    spec fn two_spec() -> Self;

    spec fn add_spec(self, rhs: Self) -> Self;

    spec fn sub_spec(self, rhs: Self) -> Self;

    spec fn mul_spec(self, rhs: Self) -> Self;

    spec fn div_spec(self, rhs: Self) -> Self;

    spec fn neg_spec(self) -> Self;

    spec fn sqrt_spec(self) -> Self;

    /// The larger of two values, as the implementation defines it.
    spec fn max_spec(self, rhs: Self) -> Self;

    /// The smaller of two values, as the implementation defines it.
    spec fn min_spec(self, rhs: Self) -> Self;

    /// Strictly below. Not assumed to be total.
    spec fn lt_spec(self, rhs: Self) -> bool;

    /// Numerically equal. Not assumed to coincide with identity.
    spec fn same_spec(self, rhs: Self) -> bool;

    /// An empty cell is never taken for an occupied one.
    proof fn zero_is_not_positive()
        ensures
            !Self::zero_spec().lt_spec(Self::zero_spec()),
    ;

    fn zero() -> (r: Self)
        ensures
            r == Self::zero_spec(),
    ;

    fn two() -> (r: Self)
        ensures
            r == Self::two_spec(),
    ;

    fn add(self, rhs: Self) -> (r: Self)
        ensures
            r == self.add_spec(rhs),
    ;

    fn sub(self, rhs: Self) -> (r: Self)
        ensures
            r == self.sub_spec(rhs),
    ;

    fn mul(self, rhs: Self) -> (r: Self)
        ensures
            r == self.mul_spec(rhs),
    ;

    fn div(self, rhs: Self) -> (r: Self)
        ensures
            r == self.div_spec(rhs),
    ;

    fn neg(self) -> (r: Self)
        ensures
            r == self.neg_spec(),
    ;

    fn sqrt(self) -> (r: Self)
        ensures
            r == self.sqrt_spec(),
    ;

    fn max(self, rhs: Self) -> (r: Self)
        ensures
            r == self.max_spec(rhs),
    ;

    fn min(self, rhs: Self) -> (r: Self)
        ensures
            r == self.min_spec(rhs),
    ;

    fn lt(self, rhs: Self) -> (r: bool)
        ensures
            r == self.lt_spec(rhs),
    ;

    fn same(self, rhs: Self) -> (r: bool)
        ensures
            r == self.same_spec(rhs),
    ;
}

} // verus!
