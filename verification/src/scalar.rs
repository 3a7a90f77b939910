//! The arithmetic a flow solver needs from its number type.
//!
//! The solver is written once, over any type that offers the operations
//! below. Each operation comes twice: as a mathematical function
//! (`*_spec`), which the solver's contracts speak of, and as the method that
//! computes it.

use vstd::prelude::*;

verus! {

/// A number type the solver can compute with.
///
/// Every method returns exactly what the function of the same name with
/// `_spec` appended gives on the same arguments. Nothing else is assumed:
/// no associativity, no exactness, not even that the order is total.
pub trait Scalar: Copy + Sized {
    /// The value of the fraction `num / den`.
    spec fn ratio_spec(num: i64, den: u64) -> Self;

    /// The value of the whole number `i`.
    spec fn index_spec(i: usize) -> Self;

    /// The sum `self + rhs`.
    spec fn plus_spec(self, rhs: Self) -> Self;

    /// The difference `self - rhs`.
    spec fn minus_spec(self, rhs: Self) -> Self;

    /// The product `self * rhs`.
    spec fn times_spec(self, rhs: Self) -> Self;

    /// The quotient `self / rhs`.
    spec fn over_spec(self, rhs: Self) -> Self;

    /// Whether `self <= rhs`.
    spec fn le_spec(self, rhs: Self) -> bool;

    /// The largest whole number not above `self`, held to the range of
    /// `usize`: zero where `self` is negative.
    spec fn floor_index_spec(self) -> usize;

    /// The square root of `self`.
    spec fn sqrt_spec(self) -> Self;

    fn ratio(num: i64, den: u64) -> (r: Self)
        ensures
            r == Self::ratio_spec(num, den),
    ;

    fn index(i: usize) -> (r: Self)
        ensures
            r == Self::index_spec(i),
    ;

    fn plus(&self, rhs: &Self) -> (r: Self)
        ensures
            r == self.plus_spec(*rhs),
    ;

    fn minus(&self, rhs: &Self) -> (r: Self)
        ensures
            r == self.minus_spec(*rhs),
    ;

    fn times(&self, rhs: &Self) -> (r: Self)
        ensures
            r == self.times_spec(*rhs),
    ;

    fn over(&self, rhs: &Self) -> (r: Self)
        ensures
            r == self.over_spec(*rhs),
    ;

    fn le(&self, rhs: &Self) -> (r: bool)
        ensures
            r == self.le_spec(*rhs),
    ;

    fn floor_index(&self) -> (r: usize)
        ensures
            r == self.floor_index_spec(),
    ;

    fn sqrt(&self) -> (r: Self)
        ensures
            r == self.sqrt_spec(),
    ;
}

/// Zero, as the scalar type writes it.
pub open spec fn zero_spec<T: Scalar>() -> T {
    T::ratio_spec(0, 1)
}

/// One, as the scalar type writes it.
pub open spec fn one_spec<T: Scalar>() -> T {
    T::ratio_spec(1, 1)
}

/// `x` held between `lo` and `hi`: first cut down to `hi`, then raised to `lo`.
pub open spec fn clamp_spec<T: Scalar>(x: T, lo: T, hi: T) -> T {
    let cut = if x.le_spec(hi) { x } else { hi };
    if lo.le_spec(cut) { cut } else { lo }
}

/// Whether `x` compares equal to zero.
pub open spec fn is_zero_spec<T: Scalar>(x: T) -> bool {
    x.le_spec(zero_spec::<T>()) && zero_spec::<T>().le_spec(x)
}

pub fn zero<T: Scalar>() -> (r: T)
    ensures
        r == zero_spec::<T>(),
{
    T::ratio(0, 1)
}

pub fn one<T: Scalar>() -> (r: T)
    ensures
        r == one_spec::<T>(),
{
    T::ratio(1, 1)
}

/// Holds `x` between `lo` and `hi`.
pub fn clamp<T: Scalar>(x: T, lo: T, hi: T) -> (r: T)
    ensures
        r == clamp_spec(x, lo, hi),
{
    let cut = if x.le(&hi) { x } else { hi };
    if lo.le(&cut) { cut } else { lo }
}

/// Tells whether `x` compares equal to zero.
pub fn is_zero<T: Scalar>(x: T) -> (r: bool)
    ensures
        r == is_zero_spec(x),
{
    let z = zero::<T>();
    x.le(&z) && z.le(&x)
}

/// Clamping twice is clamping once, whatever the order relation is.
pub proof fn lemma_clamp_idempotent<T: Scalar>(x: T, lo: T, hi: T)
    ensures
        clamp_spec(clamp_spec(x, lo, hi), lo, hi) == clamp_spec(x, lo, hi),
{
}

} // verus!
