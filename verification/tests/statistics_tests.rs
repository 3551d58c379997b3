use linfit::linear_regression::{DataPoint, LinearRegression};
use linfit::rational::Rat;
use linfit::statistics::{calc_covariance, calc_variance, mean};

#[test]
fn mean_of_scaled_values() {
    let values: Vec<i64> = vec![2, 4, 6];
    let m = mean(&values, 1);
    assert_eq!(m, Rat::new(12, 3));
    // As a value: 12 / 3 == 4.
    assert_eq!(m.num * 1, 4 * m.den);
}

#[test]
fn mean_of_empty_is_undefined() {
    let values: Vec<i64> = Vec::new();
    let m = mean(&values, 1);
    assert_eq!(m.den, 0);
}

#[test]
fn variance_with_bessel_divisor() {
    let values: Vec<i64> = vec![2, 4, 6];
    let v = calc_variance(&values, 1, Rat::new(4, 1));
    assert_eq!(v, Rat::new(8, 2));
    // As a value: 8 / 2 == 4.
    assert_eq!(v.num * 1, 4 * v.den);
}

#[test]
fn variance_of_single_value_is_undefined() {
    let values: Vec<i64> = vec![5];
    let v = calc_variance(&values, 1, Rat::new(5, 1));
    assert_eq!(v.den, 0);
}

#[test]
fn covariance_with_bessel_divisor() {
    let xs: Vec<i64> = vec![1, 2, 3];
    let ys: Vec<i64> = vec![2, 4, 6];
    let c = calc_covariance(&xs, &ys, 1, Rat::new(2, 1), Rat::new(4, 1));
    assert_eq!(c, Rat::new(4, 2));
    // As a value, the n - 1 divisor gives 4 / 2 == 2.
    assert_eq!(c.num * 1, 2 * c.den);
}

// The closed-form slope agrees algebraically with covariance / variance.
#[test]
fn closed_form_agrees_with_moment_helpers() {
    let xs: Vec<i64> = vec![10, 20, 30, 40, 50, 50, 15, 32, 48];
    let ys: Vec<i64> = vec![20, 40, 50, 40, 50, 40, 25, 48, 53];
    let data: Vec<DataPoint> =
        xs.iter().zip(ys.iter()).map(|(&x, &y)| DataPoint::new(x, y)).collect();
    let mut lr = LinearRegression::load(&data, 10);
    lr.calculate();
    let (slope, _) = lr.get_slope_intercept();

    let mx = mean(&xs, 10);
    let my = mean(&ys, 10);
    let var = calc_variance(&xs, 10, mx);
    let cov = calc_covariance(&xs, &ys, 10, mx, my);
    assert_eq!(var, Rat::new(15256800, 6480000));
    assert_eq!(cov, Rat::new(8572500, 6480000));
    // var and cov share a denominator, so slope == cov / var reduces to
    // slope.num * var.num == cov.num * slope.den.
    assert_eq!(var.den, cov.den);
    assert_eq!(slope.num * var.num, cov.num * slope.den);
}
