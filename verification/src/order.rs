//! Numbers whose arithmetic respects their order.

use vstd::prelude::*;

use crate::metrics::total;
use crate::number::Number;

verus! {

/// The largest magnitude up to which every integer is a number and sums of integers are exact.
pub const EXACT_INTEGERS: i64 = 9_007_199_254_740_992;

/// A [`Number`] whose operations respect the order of the numbers.
///
/// Nothing here asks for exact results: rounding may move a result, as long as it never moves two
/// results past each other. A number that does not compare equal to itself stands for an undefined
/// result; most lemmas leave it out.
pub trait OrderedNumber: Number {
    /// Whether the number is defined and not infinite.
    spec fn finite_spec(self) -> bool;

    /// The integer `n`, exactly where its magnitude is at most [`EXACT_INTEGERS`].
    spec fn integer_spec(n: i64) -> Self;

    /// The comparisons make a total order of the numbers that compare equal to themselves.
    proof fn lemma_order(x: Self, y: Self, z: Self)
        ensures
            x.below_spec(y) == (x.at_most_spec(y) && !y.at_most_spec(x)),
            x.same_spec(y) == (x.at_most_spec(y) && y.at_most_spec(x)),
            x.at_most_spec(y) ==> x.same_spec(x) && y.same_spec(y),
            x.at_most_spec(y) && y.at_most_spec(z) ==> x.at_most_spec(z),
            x.same_spec(x) && y.same_spec(y) ==> x.at_most_spec(y) || y.at_most_spec(x),
    ;

    /// Whole numbers are finite, and so is what lies between finite numbers. One plus or minus a
    /// finite number is finite.
    proof fn lemma_finite(n: u32, low: Self, x: Self, high: Self)
        ensures
            Self::whole_spec(n).finite_spec(),
            low.finite_spec() && high.finite_spec() && low.at_most_spec(x) && x.at_most_spec(high)
                ==> x.finite_spec(),
            x.finite_spec() ==> x.same_spec(x),
            x.finite_spec() ==> Self::whole_spec(1).plus_spec(x).finite_spec(),
            x.finite_spec() ==> Self::whole_spec(1).minus_spec(x).finite_spec(),
    ;

    /// A sum with a finite number is defined.
    proof fn lemma_plus_defined(x: Self, y: Self)
        requires
            x.same_spec(x),
            y.finite_spec(),
        ensures
            x.plus_spec(y).same_spec(x.plus_spec(y)),
    ;

    /// Where two sums are defined, the one with the smaller summands is not the greater one.
    proof fn lemma_plus_monotone(a: Self, b: Self, c: Self, d: Self)
        requires
            a.at_most_spec(b),
            c.at_most_spec(d),
            a.plus_spec(c).same_spec(a.plus_spec(c)),
            b.plus_spec(d).same_spec(b.plus_spec(d)),
        ensures
            a.plus_spec(c).at_most_spec(b.plus_spec(d)),
    ;

    /// Sums of nonnegative numbers are nonnegative.
    proof fn lemma_plus_nonnegative(x: Self, y: Self)
        requires
            Self::whole_spec(0).at_most_spec(x),
            Self::whole_spec(0).at_most_spec(y),
        ensures
            Self::whole_spec(0).at_most_spec(x.plus_spec(y)),
    ;

    /// Dividing by a count keeps the order, and keeps nonnegative numbers nonnegative.
    proof fn lemma_over_monotone(x: Self, y: Self, n: usize)
        requires
            n > 0,
        ensures
            x.at_most_spec(y) ==> x.over_spec(n).at_most_spec(y.over_spec(n)),
            Self::whole_spec(0).at_most_spec(x) ==> Self::whole_spec(0).at_most_spec(
                x.over_spec(n),
            ),
    ;

    /// The average of ones is at most one.
    proof fn lemma_mean_of_ones(n: usize)
        requires
            n > 0,
        ensures
            total(Seq::new(n as nat, |i: int| Self::whole_spec(1))).over_spec(n).at_most_spec(
                Self::whole_spec(1),
            ),
    ;

    /// A factor of no more than one does not enlarge a nonnegative number, and one of no less than
    /// one does not reduce it.
    proof fn lemma_product_with_factor(x: Self, base: Self, change: Self)
        requires
            Self::whole_spec(0).at_most_spec(base),
            Self::whole_spec(0).at_most_spec(change),
        ensures
            x.below_product_spec(base, Self::whole_spec(1).minus_spec(change)) ==> x.below_spec(
                base,
            ),
            x.above_product_spec(base, Self::whole_spec(1).plus_spec(change)) ==> base.below_spec(
                x,
            ),
    ;

    /// What is below a product has only numbers below the product beneath it; what is above a
    /// product has only numbers above the product over it.
    proof fn lemma_product_order(x: Self, y: Self, a: Self, b: Self)
        requires
            x.at_most_spec(y),
        ensures
            y.below_product_spec(a, b) ==> x.below_product_spec(a, b),
            x.above_product_spec(a, b) ==> y.above_product_spec(a, b),
    ;

    /// A product with zero is zero, where it is defined, and with a finite factor it is defined.
    proof fn lemma_zero_product(x: Self, zero: Self, factor: Self)
        requires
            zero.same_spec(Self::whole_spec(0)),
        ensures
            x.below_product_spec(zero, factor) ==> x.below_spec(Self::whole_spec(0)),
            x.above_product_spec(zero, factor) ==> Self::whole_spec(0).below_spec(x),
            factor.finite_spec() && x.below_spec(Self::whole_spec(0)) ==> x.below_product_spec(
                zero,
                factor,
            ),
            factor.finite_spec() && Self::whole_spec(0).below_spec(x) ==> x.above_product_spec(
                zero,
                factor,
            ),
    ;

    /// Integers add up exactly.
    proof fn lemma_integer_sum(a: i64, b: i64)
        requires
            -EXACT_INTEGERS <= a <= EXACT_INTEGERS,
            -EXACT_INTEGERS <= b <= EXACT_INTEGERS,
            -EXACT_INTEGERS <= a + b <= EXACT_INTEGERS,
        ensures
            Self::integer_spec(0) == Self::whole_spec(0),
            Self::integer_spec(a).plus_spec(Self::integer_spec(b)) == Self::integer_spec(
                (a + b) as i64,
            ),
    ;
}

} // verus!
