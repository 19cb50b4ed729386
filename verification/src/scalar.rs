//! The number system the tracer computes in.
//!
//! Every quantity of the renderer (coordinates, distances, colour channels) is a
//! value of one type `T: Scalar`. The library never looks inside such a value: it
//! only combines values through the operations below, so its contracts describe
//! results as terms over these operations.
use vstd::prelude::*;

verus! {

/// A number type with the arithmetic the tracer needs.
///
/// Each operation is total and comes with a specification function of the same
/// meaning; the executable method promises to return exactly that value. An
/// implementation therefore owes one thing: every method is a function of its
/// arguments. Nothing is assumed about the algebra (no associativity, no
/// distributivity, no totality of the order), so rounding number types qualify.
///
/// `tan` is the exception: its precision may differ between machines and from
/// call to call, so its result has no name. It promises that the result is one
/// that `may_be_tangent` admits for its argument, and the implementation says
/// which those are.
pub trait Scalar: Copy {
    /// The scalar that stands for the integer `n`.
    spec fn whole(n: i32) -> Self;

    /// A value above every distance a ray can travel.
    spec fn unbounded() -> Self;

    spec fn plus(self, rhs: Self) -> Self;

    spec fn minus(self, rhs: Self) -> Self;

    spec fn times(self, rhs: Self) -> Self;

    spec fn over(self, rhs: Self) -> Self;

    spec fn negated(self) -> Self;

    spec fn root(self) -> Self;

    /// The angle `self`, given in degrees, expressed in radians.
    spec fn radians(self) -> Self;

    /// Strictly less than.
    spec fn below(self, rhs: Self) -> bool;

    /// Less than or equal to.
    spec fn at_most(self, rhs: Self) -> bool;

    /// The 16-bit integer that `self` is cut down to.
    spec fn truncated(self) -> i16;

    /// Whether `tangent` is a value that `tan` may return for the angle
    /// `self`, given in radians.
    spec fn may_be_tangent(self, tangent: Self) -> bool;

    fn from_int(n: i32) -> (r: Self)
        ensures
            r == Self::whole(n),
    ;

    fn infinity() -> (r: Self)
        ensures
            r == Self::unbounded(),
    ;

    fn add(self, rhs: Self) -> (r: Self)
        ensures
            r == self.plus(rhs),
    ;

    fn sub(self, rhs: Self) -> (r: Self)
        ensures
            r == self.minus(rhs),
    ;

    fn mul(self, rhs: Self) -> (r: Self)
        ensures
            r == self.times(rhs),
    ;

    fn div(self, rhs: Self) -> (r: Self)
        ensures
            r == self.over(rhs),
    ;

    fn neg(self) -> (r: Self)
        ensures
            r == self.negated(),
    ;

    fn sqrt(self) -> (r: Self)
        ensures
            r == self.root(),
    ;

    fn to_radians(self) -> (r: Self)
        ensures
            r == self.radians(),
    ;

    /// The tangent of `self`, an angle in radians.
    fn tan(self) -> (r: Self)
        ensures
            self.may_be_tangent(r),
    ;

    fn lt(self, rhs: Self) -> (r: bool)
        ensures
            r == self.below(rhs),
    ;

    fn le(self, rhs: Self) -> (r: bool)
        ensures
            r == self.at_most(rhs),
    ;

    fn to_i16(self) -> (r: i16)
        ensures
            r == self.truncated(),
    ;
}

/// The quotient of two integers, as a scalar.
pub open spec fn spec_ratio<T: Scalar>(num: i32, den: i32) -> T {
    T::whole(num).over(T::whole(den))
}

/// `a` with its sign dropped, as far as the order can tell: the negation of what
/// lies below zero, anything else unchanged.
pub open spec fn spec_abs<T: Scalar>(a: T) -> T {
    if a.below(T::whole(0)) {
        a.negated()
    } else {
        a
    }
}

/// `a` where it lies strictly below `b`, else `b`.
pub open spec fn spec_min<T: Scalar>(a: T, b: T) -> T {
    if a.below(b) {
        a
    } else {
        b
    }
}

/// `val` held between `min` and `max`: `min` where `val` lies below it, else `max`
/// where `val` lies above it, else `val`.
pub open spec fn spec_limit<T: Scalar>(val: T, min: T, max: T) -> T {
    if val.below(min) {
        min
    } else if max.below(val) {
        max
    } else {
        val
    }
}

pub fn ratio<T: Scalar>(num: i32, den: i32) -> (r: T)
    ensures
        r == spec_ratio::<T>(num, den),
{
    T::from_int(num).div(T::from_int(den))
}

pub fn abs<T: Scalar>(a: T) -> (r: T)
    ensures
        r == spec_abs(a),
{
    if a.lt(T::from_int(0)) {
        a.neg()
    } else {
        a
    }
}

pub fn min<T: Scalar>(a: T, b: T) -> (r: T)
    ensures
        r == spec_min(a, b),
{
    if a.lt(b) {
        a
    } else {
        b
    }
}

pub fn limit<T: Scalar>(val: T, min: T, max: T) -> (r: T)
    ensures
        r == spec_limit(val, min, max),
{
    if val.lt(min) {
        min
    } else if max.lt(val) {
        max
    } else {
        val
    }
}

} // verus!
