//! The arithmetic that the engine is written against.
use vstd::prelude::*;

verus! {

/// A number type on which a network can compute.
///
/// Every operation is total and deterministic: each executable method returns
/// exactly the value that the spec function of the same name gives. The
/// engine's contracts are stated over these spec functions, so they say which
/// operations are applied to which values and in which order, whatever
/// rounding or saturation the number type performs.
///
/// An implementation for a number type that Verus cannot reason about, such
/// as floating point, takes each spec function to be the operation itself.
pub trait Scalar: Copy {
    /// The scalar that stands for the whole number `n`.
    spec fn from_count_spec(n: usize) -> Self;

    /// The sum of `self` and `rhs`.
    spec fn plus_spec(self, rhs: Self) -> Self;

    /// The difference of `self` and `rhs`.
    spec fn minus_spec(self, rhs: Self) -> Self;

    /// The product of `self` and `rhs`.
    spec fn times_spec(self, rhs: Self) -> Self;

    /// The quotient of `self` by `rhs`.
    spec fn over_spec(self, rhs: Self) -> Self;

    /// Whether `self` is strictly greater than `rhs`.
    spec fn exceeds_spec(self, rhs: Self) -> bool;

    /// The hyperbolic tangent of `self`.
    spec fn tanh_spec(self) -> Self;

    /// The scalar that stands for the whole number `n`.
    fn from_count(n: usize) -> (r: Self)
        ensures
            r == Self::from_count_spec(n),
    ;

    /// Adds `rhs` to `self`.
    fn plus(self, rhs: Self) -> (r: Self)
        ensures
            r == self.plus_spec(rhs),
    ;

    /// Subtracts `rhs` from `self`.
    fn minus(self, rhs: Self) -> (r: Self)
        ensures
            r == self.minus_spec(rhs),
    ;

    /// Multiplies `self` by `rhs`.
    fn times(self, rhs: Self) -> (r: Self)
        ensures
            r == self.times_spec(rhs),
    ;

    /// Divides `self` by `rhs`.
    fn over(self, rhs: Self) -> (r: Self)
        ensures
            r == self.over_spec(rhs),
    ;

    /// Tells whether `self` is strictly greater than `rhs`.
    fn exceeds(self, rhs: Self) -> (r: bool)
        ensures
            r == self.exceeds_spec(rhs),
    ;

    /// The hyperbolic tangent of `self`.
    fn tanh(self) -> (r: Self)
        ensures
            r == self.tanh_spec(),
    ;
}

/// The scalar that stands for the whole number `n`, which is taken to fit
/// in a `usize`.
pub open spec fn count<S: Scalar>(n: nat) -> S {
    S::from_count_spec(n as usize)
}

/// The scalar zero.
pub open spec fn zero<S: Scalar>() -> S {
    S::from_count_spec(0)
}

/// The scalar one.
pub open spec fn one<S: Scalar>() -> S {
    S::from_count_spec(1)
}

/// The scalar two.
pub open spec fn two<S: Scalar>() -> S {
    S::from_count_spec(2)
}

/// The entries of `v` added up from left to right, starting from `start`.
pub open spec fn sum_from<S: Scalar>(start: S, v: Seq<S>) -> S
    decreases v.len(),
{
    if v.len() == 0 {
        start
    } else {
        sum_from(start, v.drop_last()).plus_spec(v.last())
    }
}

/// Zero is neutral for sums and absorbs products in `S`.
pub open spec fn zero_is_absorbing<S: Scalar>() -> bool {
    &&& zero::<S>().plus_spec(zero::<S>()) == zero::<S>()
    &&& forall|x: S| #[trigger] zero::<S>().times_spec(x) == zero::<S>()
}

/// One is neutral for products on the right in `S`.
pub open spec fn one_is_neutral<S: Scalar>() -> bool {
    forall|x: S| #[trigger] x.times_spec(one::<S>()) == x
}

} // verus!
