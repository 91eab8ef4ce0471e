//! The arithmetic that the library asks of a measurement.

use vstd::prelude::*;

verus! {

/// A number in which traffic shares, measurements and thresholds are expressed.
///
/// Each executable operation has a specification function that names its result, so every
/// contract of the library says which operations were applied to which operands. Beyond
/// [`Number::lemma_whole_order`] and [`Number::lemma_lone_value`] nothing is asked of the results:
/// rounding, saturation and values that compare with nothing are all allowed.
pub trait Number: Copy {
    /// The whole number `n`.
    spec fn whole_spec(n: u32) -> Self;

    /// The sum of two numbers.
    spec fn plus_spec(self, other: Self) -> Self;

    /// The difference of two numbers.
    spec fn minus_spec(self, other: Self) -> Self;

    /// This number divided by a count.
    spec fn over_spec(self, n: usize) -> Self;

    /// `self < other`.
    spec fn below_spec(self, other: Self) -> bool;

    /// `self <= other`.
    spec fn at_most_spec(self, other: Self) -> bool;

    /// `self == other`, as the number system compares.
    spec fn same_spec(self, other: Self) -> bool;

    /// `self < a * b`.
    spec fn below_product_spec(self, a: Self, b: Self) -> bool;

    /// `self > a * b`.
    spec fn above_product_spec(self, a: Self, b: Self) -> bool;

    /// Whole numbers compare as the integers that they stand for.
    proof fn lemma_whole_order(a: u32, b: u32)
        ensures
            Self::whole_spec(a).below_spec(Self::whole_spec(b)) == (a < b),
            Self::whole_spec(a).at_most_spec(Self::whole_spec(b)) == (a <= b),
            Self::whole_spec(a).same_spec(Self::whole_spec(b)) == (a == b),
    ;

    /// A value that compares equal to itself is the average of itself alone.
    proof fn lemma_lone_value(x: Self)
        requires
            x.same_spec(x),
        ensures
            Self::whole_spec(0).plus_spec(x).over_spec(1).same_spec(x),
    ;

    /// The whole number `n`.
    fn whole(n: u32) -> (r: Self)
        ensures
            r == Self::whole_spec(n),
    ;

    /// The sum of two numbers.
    fn plus(self, other: Self) -> (r: Self)
        ensures
            r == self.plus_spec(other),
    ;

    /// The difference of two numbers.
    fn minus(self, other: Self) -> (r: Self)
        ensures
            r == self.minus_spec(other),
    ;

    /// This number divided by a positive count.
    fn over(self, n: usize) -> (r: Self)
        requires
            n > 0,
        ensures
            r == self.over_spec(n),
    ;

    /// Whether `self < other`.
    fn below(self, other: Self) -> (r: bool)
        ensures
            r == self.below_spec(other),
    ;

    /// Whether `self <= other`.
    fn at_most(self, other: Self) -> (r: bool)
        ensures
            r == self.at_most_spec(other),
    ;

    /// Whether `self == other`.
    fn same(self, other: Self) -> (r: bool)
        ensures
            r == self.same_spec(other),
    ;

    /// Whether `self < a * b`.
    fn below_product(self, a: Self, b: Self) -> (r: bool)
        ensures
            r == self.below_product_spec(a, b),
    ;

    /// Whether `self > a * b`.
    fn above_product(self, a: Self, b: Self) -> (r: bool)
        ensures
            r == self.above_product_spec(a, b),
    ;
}

} // verus!
