//! The scalar arithmetic that the engine is built on.
use vstd::prelude::*;

verus! {

/// A scalar sample: a real number as the machine represents it.
///
/// The methods carry no contract. Nothing in this library relies on what an
/// operation computes, only on the fact that it was applied: the contracts of
/// the library name the arguments each operation received and the value it
/// gave back, through the predicates below.
pub trait Sample: Copy {
    /// The scalar nearest to the whole number `n`.
    fn from_count(n: usize) -> Self;

    /// The whole part of a scalar as a count; out-of-range values saturate.
    fn to_count(self) -> usize;

    /// The circle constant, one full turn in radians.
    fn tau() -> Self;

    /// The sum of `self` and `rhs`.
    fn plus(self, rhs: Self) -> Self;

    /// The difference of `self` and `rhs`.
    fn minus(self, rhs: Self) -> Self;

    /// The product of `self` and `rhs`.
    fn times(self, rhs: Self) -> Self;

    /// The quotient of `self` by `rhs`.
    fn over(self, rhs: Self) -> Self;

    /// Remainder of the division by `rhs`, with the sign of `self`.
    fn modulo(self, rhs: Self) -> Self;

    /// The negation of `self`.
    fn negated(self) -> Self;

    /// The largest whole scalar not above `self`.
    fn floor(self) -> Self;

    /// The smallest whole scalar not below `self`.
    fn ceil(self) -> Self;

    /// The fractional part, `self` less its whole part.
    fn fract(self) -> Self;

    /// The sine of `self`, an angle in radians.
    fn sin(self) -> Self;

    /// The cosine of `self`, an angle in radians.
    fn cos(self) -> Self;

    /// The tangent of `self`, an angle in radians.
    fn tan(self) -> Self;

    /// The hyperbolic tangent of `self`.
    fn tanh(self) -> Self;

    /// Whether `self` is strictly greater than `rhs`.
    fn exceeds(self, rhs: Self) -> bool;

    /// The larger of `self` and `floor`.
    fn at_least(self, floor: Self) -> Self;

    /// The smaller of `self` and `ceiling`.
    fn at_most(self, ceiling: Self) -> Self;
}

/// `r` is what `from_count` gave for `n`.
#[verifier::inline]
pub open spec fn is_count<S: Sample>(n: usize, r: S) -> bool {
    call_ensures(S::from_count, (n,), r)
}

/// `n` is what `to_count` gave for `x`.
#[verifier::inline]
pub open spec fn is_index<S: Sample>(x: S, n: usize) -> bool {
    call_ensures(S::to_count, (x,), n)
}

/// `r` is what `tau` gave.
#[verifier::inline]
pub open spec fn is_tau<S: Sample>(r: S) -> bool {
    call_ensures(S::tau, (), r)
}

/// `r` is what `a.plus(b)` gave.
#[verifier::inline]
pub open spec fn is_sum<S: Sample>(a: S, b: S, r: S) -> bool {
    call_ensures(S::plus, (a, b), r)
}

/// `r` is what `a.minus(b)` gave.
#[verifier::inline]
pub open spec fn is_diff<S: Sample>(a: S, b: S, r: S) -> bool {
    call_ensures(S::minus, (a, b), r)
}

/// `r` is what `a.times(b)` gave.
#[verifier::inline]
pub open spec fn is_prod<S: Sample>(a: S, b: S, r: S) -> bool {
    call_ensures(S::times, (a, b), r)
}

/// `r` is what `a.over(b)` gave.
#[verifier::inline]
pub open spec fn is_quot<S: Sample>(a: S, b: S, r: S) -> bool {
    call_ensures(S::over, (a, b), r)
}

/// `r` is what `a.modulo(b)` gave.
#[verifier::inline]
pub open spec fn is_rem<S: Sample>(a: S, b: S, r: S) -> bool {
    call_ensures(S::modulo, (a, b), r)
}

/// `r` is what `a.negated()` gave.
#[verifier::inline]
pub open spec fn is_neg<S: Sample>(a: S, r: S) -> bool {
    call_ensures(S::negated, (a,), r)
}

/// `r` is what `a.floor()` gave.
#[verifier::inline]
pub open spec fn is_floor<S: Sample>(a: S, r: S) -> bool {
    call_ensures(S::floor, (a,), r)
}

/// `r` is what `a.ceil()` gave.
#[verifier::inline]
pub open spec fn is_ceil<S: Sample>(a: S, r: S) -> bool {
    call_ensures(S::ceil, (a,), r)
}

/// `r` is what `a.fract()` gave.
#[verifier::inline]
pub open spec fn is_fract<S: Sample>(a: S, r: S) -> bool {
    call_ensures(S::fract, (a,), r)
}

/// `r` is what `a.sin()` gave.
#[verifier::inline]
pub open spec fn is_sin<S: Sample>(a: S, r: S) -> bool {
    call_ensures(S::sin, (a,), r)
}

/// `r` is what `a.cos()` gave.
#[verifier::inline]
pub open spec fn is_cos<S: Sample>(a: S, r: S) -> bool {
    call_ensures(S::cos, (a,), r)
}

/// `r` is what `a.tan()` gave.
#[verifier::inline]
pub open spec fn is_tan<S: Sample>(a: S, r: S) -> bool {
    call_ensures(S::tan, (a,), r)
}

/// `r` is what `a.tanh()` gave.
#[verifier::inline]
pub open spec fn is_tanh<S: Sample>(a: S, r: S) -> bool {
    call_ensures(S::tanh, (a,), r)
}

/// `c` is what `a.exceeds(b)` gave.
#[verifier::inline]
pub open spec fn is_gt<S: Sample>(a: S, b: S, c: bool) -> bool {
    call_ensures(S::exceeds, (a, b), c)
}

/// `r` is what `a.at_least(b)` gave.
#[verifier::inline]
pub open spec fn is_max<S: Sample>(a: S, b: S, r: S) -> bool {
    call_ensures(S::at_least, (a, b), r)
}

/// `r` is what `a.at_most(b)` gave.
#[verifier::inline]
pub open spec fn is_min<S: Sample>(a: S, b: S, r: S) -> bool {
    call_ensures(S::at_most, (a, b), r)
}

/// `r` is what dividing the count `num` by the count `den` gave: the
/// library writes its fractional constants this way.
pub open spec fn is_ratio<S: Sample>(num: usize, den: usize, r: S) -> bool {
    exists|n: S, d: S|
        {
            &&& #[trigger] is_count(num, n)
            &&& #[trigger] is_count(den, d)
            &&& is_quot(n, d, r)
        }
}

/// The constant `num / den`.
pub fn ratio<S: Sample>(num: usize, den: usize) -> (r: S)
    ensures
        is_ratio(num, den, r),
{
    let n = S::from_count(num);
    let d = S::from_count(den);
    let r = n.over(d);
    assert(is_count(num, n) && is_count(den, d) && is_quot(n, d, r));
    r
}

} // verus!
