//! The order laws of the library rest on these properties of double-precision arithmetic.

fn grid() -> Vec<f64> {
    let mut values = vec![
        0.0,
        5e-324,
        2.2250738585072014e-308,
        1e-12,
        0.05,
        0.1,
        0.9,
        0.9999999999999999,
        1.0,
        1.0000000000000002,
        1.1,
        3.0,
        9007199254740993.0,
        1e300,
        f64::MAX,
        f64::INFINITY,
    ];
    let negated: Vec<f64> = values.iter().map(|x| -x).collect();
    values.extend(negated);
    values.push(f64::NAN);
    values
}

#[test]
fn doubles_compare_as_a_total_order_of_the_defined_ones() {
    for x in grid() {
        for y in grid() {
            assert_eq!(x < y, x <= y && !(y <= x));
            assert_eq!(x == y, x <= y && y <= x);
            assert!(!(x <= y) || (x == x && y == y));
            assert!(!(x == x && y == y) || x <= y || y <= x);
            for z in grid() {
                assert!(!(x <= y && y <= z) || x <= z);
                assert!(!(x.is_finite() && z.is_finite() && x <= y && y <= z) || y.is_finite());
            }
        }
    }
}

#[test]
fn sums_and_quotients_of_doubles_respect_the_order() {
    for a in grid() {
        assert!(a != a || (0.0 + a) / 1.0 == a);
        assert!(!a.is_finite() || (1.0 + a).is_finite() && (1.0 - a).is_finite());
        for b in grid() {
            assert!(!(a == a && b.is_finite()) || a + b == a + b);
            assert!(!(0.0 <= a && 0.0 <= b) || 0.0 <= a + b);
            for n in [1usize, 2, 3, 7, 10, 1000, usize::MAX] {
                assert!(!(a <= b) || a / n as f64 <= b / n as f64);
                assert!(!(0.0 <= a) || 0.0 <= a / n as f64);
            }
            for c in grid() {
                for d in grid() {
                    let (low, high) = (a + c, b + d);
                    assert!(!(a <= b && c <= d && low == low && high == high) || low <= high);
                }
            }
        }
    }
}

#[test]
fn products_of_doubles_respect_the_order() {
    for x in grid() {
        for base in grid() {
            for change in grid() {
                if 0.0 <= base && 0.0 <= change {
                    assert!(!(x < base * (1.0 - change)) || x < base);
                    assert!(!(x > base * (1.0 + change)) || base < x);
                }
                if base == 0.0 {
                    assert!(!(x < base * change) || x < 0.0);
                    assert!(!(x > base * change) || 0.0 < x);
                    assert!(!(change.is_finite() && x < 0.0) || x < base * change);
                    assert!(!(change.is_finite() && 0.0 < x) || x > base * change);
                }
                for y in grid() {
                    assert!(!(x <= y && y < base * change) || x < base * change);
                    assert!(!(x <= y && x > base * change) || y > base * change);
                }
            }
        }
    }
}

#[test]
fn integers_and_ones_add_up_in_doubles() {
    let limit: i64 = 9_007_199_254_740_992;
    for (a, b) in [(0, 0), (1, -1), (limit, 0), (limit - 1, 1), (limit, -limit), (-limit + 5, -5)] {
        assert_eq!(a as f64 + b as f64, (a + b) as f64);
    }
    let mut sum = 0.0;
    for n in 1usize..100_000 {
        sum += 1.0;
        assert!(sum / n as f64 <= 1.0);
    }
}
