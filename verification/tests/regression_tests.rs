use linfit::linear_regression::{linear_regression, DataPoint, LinearRegression};
use linfit::rational::Rat;

fn points(raw: &[(i64, i64)]) -> Vec<DataPoint> {
    raw.iter().map(|&(x, y)| DataPoint::new(x, y)).collect()
}

// The nine-point reference set, coordinates scaled by 10.
fn reference_set() -> Vec<DataPoint> {
    points(&[
        (10, 20),
        (20, 40),
        (30, 50),
        (40, 40),
        (50, 50),
        (50, 40),
        (15, 25),
        (32, 48),
        (48, 53),
    ])
}

#[test]
fn fixed_sample_set_reproducible() {
    let data = reference_set();
    let mut lr = LinearRegression::load(&data, 10);
    lr.calculate();
    let (slope, intercept) = lr.get_slope_intercept();
    assert_eq!(slope, Rat::new(9525, 16952));
    assert_eq!(intercept, Rat::new(3394557, 1525680));
    assert_eq!(lr.r_squared(), Rat::new(13841827155000, 24533952333696));
}

#[test]
fn constant_x_gives_undefined_slope() {
    let data = points(&[(2, 1), (2, 3), (2, 5)]);
    let mut lr = LinearRegression::load(&data, 1);
    lr.calculate();
    let (slope, _) = lr.get_slope_intercept();
    assert_eq!(slope.den, 0);
}

#[test]
fn constant_y_gives_undefined_r_squared() {
    let data = points(&[(1, 7), (2, 7), (3, 7)]);
    let mut lr = LinearRegression::load(&data, 1);
    lr.calculate();
    let r2 = lr.r_squared();
    assert_eq!(r2.den, 0);
    // The slope itself is defined here: only the spread of y is degenerate.
    let (slope, intercept) = lr.get_slope_intercept();
    assert_eq!(slope, Rat::new(0, 6));
    assert_eq!(intercept, Rat::new(126, 18));
}

#[test]
fn calculate_is_idempotent() {
    let data = reference_set();
    let mut lr = LinearRegression::load(&data, 10);
    lr.calculate();
    let first = (lr.get_slope_intercept(), lr.r_squared());
    lr.calculate();
    let second = (lr.get_slope_intercept(), lr.r_squared());
    assert_eq!(first, second);
}

#[test]
fn collinear_fit_is_exact() {
    let data = points(&[(0, 0), (1, 1), (2, 2), (3, 3)]);
    let mut lr = LinearRegression::load(&data, 1);
    lr.calculate();
    let (slope, intercept) = lr.get_slope_intercept();
    let r2 = lr.r_squared();
    assert_eq!(slope, Rat::new(20, 20));
    assert_eq!(intercept, Rat::new(0, 80));
    assert_eq!(r2, Rat::new(32000, 32000));
    // As values: slope == 1, intercept == 0, r_squared == 1.
    assert_eq!(slope.num, slope.den);
    assert_ne!(slope.den, 0);
    assert_eq!(intercept.num, 0);
    assert_ne!(intercept.den, 0);
    assert_eq!(r2.num, r2.den);
    assert_ne!(r2.den, 0);
}

#[test]
fn order_independence() {
    let data = reference_set();
    let mut permuted = reference_set();
    permuted.reverse();
    permuted.swap(2, 5);
    let mut lr1 = LinearRegression::load(&data, 10);
    let mut lr2 = LinearRegression::load(&permuted, 10);
    lr1.calculate();
    lr2.calculate();
    assert_eq!(lr1.get_slope_intercept(), lr2.get_slope_intercept());
    assert_eq!(lr1.r_squared(), lr2.r_squared());
}

#[test]
fn sentinel_before_calculate() {
    let data = reference_set();
    let lr = LinearRegression::load(&data, 10);
    let (slope, intercept) = lr.get_slope_intercept();
    assert_eq!(slope, Rat::zero());
    assert_eq!(intercept, Rat::zero());
    assert_eq!(lr.r_squared(), Rat::zero());
    assert_eq!(Rat::zero(), Rat::new(0, 1));
}

#[test]
fn try_load_checks_limits() {
    let good = reference_set();
    assert!(LinearRegression::try_load(&good, 10).is_some());
    // A coordinate beyond the allowed magnitude.
    let big = points(&[(1001, 0), (0, 0)]);
    assert!(LinearRegression::try_load(&big, 1).is_none());
    let neg = points(&[(0, -1001), (0, 0)]);
    assert!(LinearRegression::try_load(&neg, 1).is_none());
    // A scale outside 1..=1000.
    assert!(LinearRegression::try_load(&good, 0).is_none());
    assert!(LinearRegression::try_load(&good, 1001).is_none());
    // Too many samples.
    let long = points(&vec![(1, 1); 257]);
    assert!(LinearRegression::try_load(&long, 1).is_none());
    // The boundary itself is allowed.
    let edge = points(&vec![(1000, -1000); 256]);
    assert!(LinearRegression::try_load(&edge, 1000).is_some());
}

#[test]
fn one_step_fit_matches_estimator() {
    let data = reference_set();
    let (slope, intercept) = linear_regression(&data, 10);
    assert_eq!(slope, Rat::new(9525, 16952));
    assert_eq!(intercept, Rat::new(3394557, 1525680));
}

#[test]
fn degenerate_small_sets() {
    let empty: Vec<DataPoint> = Vec::new();
    let mut lr = LinearRegression::load(&empty, 1);
    lr.calculate();
    let (slope, _) = lr.get_slope_intercept();
    assert_eq!(slope.den, 0);
    let one = points(&[(3, 4)]);
    let mut lr1 = LinearRegression::load(&one, 1);
    lr1.calculate();
    let (slope1, _) = lr1.get_slope_intercept();
    assert_eq!(slope1.den, 0);
}
