//! A fixed-point number with eighteen decimal places.

use vstd::prelude::*;

use crate::metrics::total;
use crate::number::Number;
use crate::order::OrderedNumber;

verus! {

/// How many units make up the number one.
pub const UNITS_PER_ONE: i128 = 1_000_000_000_000_000_000;

/// The magnitude of the least unit count.
const MAGNITUDE_LIMIT: u128 = 170_141_183_460_469_231_731_687_303_715_884_105_728;

/// A number counted in units of `10^-18`.
///
/// Comparisons are exact, also those with a product. A sum or difference that leaves the range of
/// the unit count stops at its end, and a quotient is rounded down to a whole unit, so no
/// operation can fail.
#[derive(Debug, Clone, Copy, PartialEq, Eq, Structural)]
pub struct Decimal {
    /// The number of units.
    pub units: i128,
}

/// `x`, or the end of the unit count's range that lies nearest to it.
pub open spec fn clamped(x: int) -> i128 {
    if x < i128::MIN {
        i128::MIN
    } else if x > i128::MAX {
        i128::MAX
    } else {
        x as i128
    }
}

/// The distance of `x` from zero.
fn magnitude(x: i128) -> (r: u128)
    ensures
        r == (if x < 0 { -(x as int) } else { x as int }),
        r <= MAGNITUDE_LIMIT,
{
    if x < 0 {
        (-(x + 1)) as u128 + 1
    } else {
        x as u128
    }
}

/// The product of `a` and `b` divided by the units in one, rounded down, and whether rounding
/// lost anything; nothing where the quotient is too large.
fn scaled_product(a: u128, b: u128) -> (r: Option<(u128, bool)>)
    ensures
        match r {
            Some((quotient, inexact)) => {
                &&& quotient == (a * b) / (UNITS_PER_ONE as int)
                &&& inexact == ((a * b) % (UNITS_PER_ONE as int) != 0)
            },
            None => (a * b) / (UNITS_PER_ONE as int) > u128::MAX,
        },
{
    let one: u128 = 1_000_000_000_000_000_000;
    let a_high: u128 = a / one;
    let a_low: u128 = a % one;
    let b_high: u128 = b / one;
    let b_low: u128 = b % one;
    proof {
        lemma_split_product(a as int, b as int, UNITS_PER_ONE as int);
        assert(a_low * b_low <= 1_000_000_000_000_000_000 * 1_000_000_000_000_000_000)
            by (nonlinear_arith)
            requires
                a_low <= 1_000_000_000_000_000_000,
                b_low <= 1_000_000_000_000_000_000,
        ;
        assert(0 <= a_high * b && 0 <= a_low * b_high) by (nonlinear_arith);
    }
    let low: u128 = a_low * b_low;
    let upper: u128 = match a_high.checked_mul(b) {
        Some(x) => x,
        None => {
            return None;
        },
    };
    let middle: u128 = match a_low.checked_mul(b_high) {
        Some(x) => x,
        None => {
            return None;
        },
    };
    let partial: u128 = match upper.checked_add(middle) {
        Some(x) => x,
        None => {
            return None;
        },
    };
    match partial.checked_add(low / one) {
        Some(quotient) => Some((quotient, low % one != 0)),
        None => None,
    }
}

/// Multiplying by parts: with both factors split at `n`, the quotient of the product by `n` is
/// made of the cross products and of the quotient of the low parts.
proof fn lemma_split_product(a: int, b: int, n: int)
    requires
        a >= 0,
        b >= 0,
        n > 0,
    ensures
        (a * b) / n == (a / n) * b + (a % n) * (b / n) + ((a % n) * (b % n)) / n,
        (a * b) % n == ((a % n) * (b % n)) % n,
        0 <= (a % n) * (b % n),
{
    let ah = a / n;
    let al = a % n;
    let bh = b / n;
    let bl = b % n;
    vstd::arithmetic::div_mod::lemma_fundamental_div_mod(a, n);
    vstd::arithmetic::div_mod::lemma_fundamental_div_mod(b, n);
    vstd::arithmetic::div_mod::lemma_mod_bound(a, n);
    vstd::arithmetic::div_mod::lemma_mod_bound(b, n);
    let low = al * bl;
    assert(0 <= low) by (nonlinear_arith)
        requires
            low == al * bl,
            al >= 0,
            bl >= 0,
    ;
    vstd::arithmetic::div_mod::lemma_fundamental_div_mod(low, n);
    vstd::arithmetic::div_mod::lemma_mod_bound(low, n);
    let q = ah * b + al * bh + low / n;
    assert(a * b == n * q + low % n) by (nonlinear_arith)
        requires
            a == n * ah + al,
            b == n * bh + bl,
            low == al * bl,
            low == n * (low / n) + low % n,
            q == ah * b + al * bh + low / n,
    ;
    vstd::arithmetic::div_mod::lemma_fundamental_div_mod_converse(a * b, n, q, low % n);
}

/// A product has the product of the factors' magnitudes, and is negative where the signs differ.
proof fn lemma_product_of_signed(x: int, y: int)
    ensures
        ({
            let a = if x < 0 { -x } else { x };
            let b = if y < 0 { -y } else { y };
            &&& a * b >= 0
            &&& (a * b == 0) == (x == 0 || y == 0)
            &&& x * y == (if (x < 0) != (y < 0) { -(a * b) } else { a * b })
        }),
{
    let a = if x < 0 { -x } else { x };
    let b = if y < 0 { -y } else { y };
    assert(a * b >= 0) by (nonlinear_arith)
        requires
            a >= 0,
            b >= 0,
    ;
    assert((a * b == 0) == (a == 0 || b == 0)) by (nonlinear_arith);
    assert((-x) * y == -(x * y) && x * (-y) == -(x * y) && (-x) * (-y) == x * y)
        by (nonlinear_arith);
}

/// Negating a number rounds its quotient to the next larger magnitude, unless it is exact.
proof fn lemma_negated_quotient(x: int, n: int)
    requires
        x >= 0,
        n > 0,
    ensures
        (-x) / n == -(x / n) - (if x % n != 0 { 1int } else { 0int }),
        x / n >= 0,
{
    let q = x / n;
    let m = x % n;
    vstd::arithmetic::div_mod::lemma_fundamental_div_mod(x, n);
    vstd::arithmetic::div_mod::lemma_mod_bound(x, n);
    vstd::arithmetic::div_mod::lemma_div_pos_is_pos(x, n);
    if m != 0 {
        assert(-x == n * (-q - 1) + (n - m)) by (nonlinear_arith)
            requires
                x == n * q + m,
        ;
        vstd::arithmetic::div_mod::lemma_fundamental_div_mod_converse(-x, n, -q - 1, n - m);
    } else {
        assert(-x == (-q) * n) by (nonlinear_arith)
            requires
                x == n * q + m,
                m == 0,
        ;
        vstd::arithmetic::div_mod::lemma_fundamental_div_mod_converse(-x, n, -q, 0);
    }
}

/// Where a number lies with respect to another.
enum Side {
    Below,
    Level,
    Above,
}

/// Where `c` lies with respect to the product of `a` and `b`, by magnitude, all three counted in
/// units.
fn side_of_magnitudes(c: u128, a: u128, b: u128) -> (r: Side)
    requires
        c <= MAGNITUDE_LIMIT,
    ensures
        r is Below == (c * UNITS_PER_ONE < a * b),
        r is Above == (c * UNITS_PER_ONE > a * b),
{
    proof {
        vstd::arithmetic::div_mod::lemma_fundamental_div_mod(a * b, UNITS_PER_ONE as int);
        assert(a * b >= 0) by (nonlinear_arith);
    }
    match scaled_product(a, b) {
        Some((quotient, inexact)) => if c < quotient || (c == quotient && inexact) {
            Side::Below
        } else if c == quotient {
            Side::Level
        } else {
            Side::Above
        },
        None => Side::Below,
    }
}

/// Where `c` lies with respect to the product of `a` and `b`, all three counted in units.
fn side_of_product(c: i128, a: i128, b: i128) -> (r: Side)
    ensures
        r is Below == (c * UNITS_PER_ONE < a * b),
        r is Above == (c * UNITS_PER_ONE > a * b),
{
    let side: Side = side_of_magnitudes(magnitude(c), magnitude(a), magnitude(b));
    proof {
        lemma_product_of_signed(a as int, b as int);
    }
    let negative: bool = (a < 0) != (b < 0);
    if (c < 0) == negative {
        match side {
            Side::Below => if negative { Side::Above } else { Side::Below },
            Side::Level => Side::Level,
            Side::Above => if negative { Side::Below } else { Side::Above },
        }
    } else if c == 0 && (a == 0 || b == 0) {
        Side::Level
    } else if negative {
        Side::Above
    } else {
        Side::Below
    }
}

/// A magnitude with its sign, where a negative number that is inexact is one further from zero.
fn signed(magnitude: u128, negative: bool, inexact: bool) -> (r: i128)
    ensures
        r == clamped(
            if negative {
                -(magnitude as int) - (if inexact { 1int } else { 0int })
            } else {
                magnitude as int
            },
        ),
{
    if !negative {
        if magnitude < MAGNITUDE_LIMIT {
            magnitude as i128
        } else {
            i128::MAX
        }
    } else if magnitude >= MAGNITUDE_LIMIT {
        i128::MIN
    } else if inexact {
        -(magnitude as i128) - 1
    } else {
        -(magnitude as i128)
    }
}

impl Decimal {
    /// The number of millionths `n`, exactly.
    pub open spec fn millionths_spec(n: i64) -> Decimal {
        Decimal { units: (n * 1_000_000_000_000) as i128 }
    }

    /// The number of millionths `n`, exactly.
    pub fn millionths(n: i64) -> (r: Decimal)
        ensures
            r == Decimal::millionths_spec(n),
            r.units == n * 1_000_000_000_000,
    {
        Decimal { units: n as i128 * 1_000_000_000_000 }
    }
}

impl Number for Decimal {
    open spec fn whole_spec(n: u32) -> Self {
        Decimal { units: (n * UNITS_PER_ONE) as i128 }
    }

    open spec fn plus_spec(self, other: Self) -> Self {
        Decimal { units: clamped(self.units + other.units) }
    }

    open spec fn minus_spec(self, other: Self) -> Self {
        Decimal { units: clamped(self.units - other.units) }
    }

    open spec fn over_spec(self, n: usize) -> Self {
        Decimal { units: clamped(self.units as int / n as int) }
    }

    open spec fn below_spec(self, other: Self) -> bool {
        self.units < other.units
    }

    open spec fn at_most_spec(self, other: Self) -> bool {
        self.units <= other.units
    }

    open spec fn same_spec(self, other: Self) -> bool {
        self.units == other.units
    }

    open spec fn below_product_spec(self, a: Self, b: Self) -> bool {
        self.units * UNITS_PER_ONE < a.units * b.units
    }

    open spec fn above_product_spec(self, a: Self, b: Self) -> bool {
        self.units * UNITS_PER_ONE > a.units * b.units
    }

    proof fn lemma_whole_order(a: u32, b: u32) {
    }

    proof fn lemma_lone_value(x: Self) {
    }

    fn whole(n: u32) -> (r: Self) {
        Decimal { units: n as i128 * UNITS_PER_ONE }
    }

    fn plus(self, other: Self) -> (r: Self) {
        match self.units.checked_add(other.units) {
            Some(units) => Decimal { units },
            None => Decimal { units: if other.units > 0 { i128::MAX } else { i128::MIN } },
        }
    }

    fn minus(self, other: Self) -> (r: Self) {
        match self.units.checked_sub(other.units) {
            Some(units) => Decimal { units },
            None => Decimal { units: if other.units < 0 { i128::MAX } else { i128::MIN } },
        }
    }

    fn over(self, n: usize) -> (r: Self) {
        let a: u128 = magnitude(self.units);
        let n: u128 = n as u128;
        proof {
            lemma_negated_quotient(a as int, n as int);
        }
        Decimal { units: signed(a / n, self.units < 0, a % n != 0) }
    }

    fn below(self, other: Self) -> (r: bool) {
        self.units < other.units
    }

    fn at_most(self, other: Self) -> (r: bool) {
        self.units <= other.units
    }

    fn same(self, other: Self) -> (r: bool) {
        self.units == other.units
    }

    fn below_product(self, a: Self, b: Self) -> (r: bool) {
        matches!(side_of_product(self.units, a.units, b.units), Side::Below)
    }

    fn above_product(self, a: Self, b: Self) -> (r: bool) {
        matches!(side_of_product(self.units, a.units, b.units), Side::Above)
    }
}

impl OrderedNumber for Decimal {
    open spec fn finite_spec(self) -> bool {
        true
    }

    open spec fn integer_spec(n: i64) -> Self {
        Decimal { units: (n * UNITS_PER_ONE) as i128 }
    }

    proof fn lemma_order(x: Self, y: Self, z: Self) {
    }

    proof fn lemma_finite(n: u32, low: Self, x: Self, high: Self) {
    }

    proof fn lemma_plus_defined(x: Self, y: Self) {
    }

    proof fn lemma_plus_monotone(a: Self, b: Self, c: Self, d: Self) {
    }

    proof fn lemma_plus_nonnegative(x: Self, y: Self) {
    }

    proof fn lemma_over_monotone(x: Self, y: Self, n: usize) {
        if x.at_most_spec(y) {
            vstd::arithmetic::div_mod::lemma_div_is_ordered(
                x.units as int,
                y.units as int,
                n as int,
            );
        }
        if x.units >= 0 {
            vstd::arithmetic::div_mod::lemma_div_pos_is_pos(x.units as int, n as int);
        }
    }

    proof fn lemma_mean_of_ones(n: usize) {
        lemma_total_of_ones(n as nat);
        let ones = Seq::new(n as nat, |i: int| Self::whole_spec(1));
        assert(total(ones).units == n * UNITS_PER_ONE);
        vstd::arithmetic::div_mod::lemma_div_multiples_vanish(UNITS_PER_ONE as int, n as int);
        assert(n * UNITS_PER_ONE == UNITS_PER_ONE * n) by (nonlinear_arith);
    }

    proof fn lemma_product_with_factor(x: Self, base: Self, change: Self) {
        let b = base.units as int;
        let one = UNITS_PER_ONE as int;
        let less = Self::whole_spec(1).minus_spec(change).units as int;
        let more = Self::whole_spec(1).plus_spec(change).units as int;
        assert(b * less <= b * one <= b * more) by (nonlinear_arith)
            requires
                b >= 0,
                less <= one <= more,
        ;
    }

    proof fn lemma_product_order(x: Self, y: Self, a: Self, b: Self) {
    }

    proof fn lemma_zero_product(x: Self, zero: Self, factor: Self) {
        assert(0int * factor.units == 0) by (nonlinear_arith);
    }

    proof fn lemma_integer_sum(a: i64, b: i64) {
    }
}

/// Adding up ones gives as many units as there are in that many ones.
proof fn lemma_total_of_ones(n: nat)
    requires
        n <= usize::MAX,
    ensures
        total(Seq::new(n, |i: int| Decimal::whole_spec(1))).units == n * UNITS_PER_ONE,
    decreases n,
{
    let ones = Seq::new(n, |i: int| Decimal::whole_spec(1));
    if n > 0 {
        let fewer = (n - 1) as nat;
        assert(ones.drop_last() =~= Seq::new(fewer, |i: int| Decimal::whole_spec(1)));
        lemma_total_of_ones(fewer);
        assert(ones.last() == Decimal::whole_spec(1));
    }
}

} // verus!
