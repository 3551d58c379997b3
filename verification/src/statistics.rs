//! Standalone statistics primitives over one or two sequences of scaled
//! integer values: arithmetic mean, sample variance, and sample
//! covariance (both with the `n - 1` divisor), all as exact rationals.
//!
//! The estimator does not call these; they are independent, reusable
//! helpers over the same scaled-integer representation.  A value `v` with
//! scale `s` stands for the real number `v / s`, and a caller-supplied
//! mean is itself a rational.  As everywhere in this crate, a zero
//! denominator marks an undefined result: the mean of no values, or a
//! variance over fewer than two.

use vstd::prelude::*;

use crate::rational::{Rat, COORD_LIMIT, MAX_SAMPLES, MEAN_LIMIT, SCALE_LIMIT};
use crate::sums::{sum_by, sum_by2};

verus! {

/// A scaled integer value, as a mathematical integer.
pub open spec fn vf() -> spec_fn(i64) -> int {
    |v: i64| v as int
}

/// A value the exact 128-bit arithmetic allows.
pub open spec fn value_ok(v: i64) -> bool {
    -COORD_LIMIT <= v <= COORD_LIMIT
}

/// A sequence of values the helpers can reduce exactly.
pub open spec fn values_ok(vs: Seq<i64>) -> bool {
    &&& vs.len() <= MAX_SAMPLES
    &&& forall|i: int| 0 <= i < vs.len() ==> value_ok(#[trigger] vs[i])
}

/// A caller-supplied mean whose parts the exact arithmetic allows.
pub open spec fn mean_ok(m: Rat) -> bool {
    &&& -MEAN_LIMIT <= m.num <= MEAN_LIMIT
    &&& -MEAN_LIMIT <= m.den <= MEAN_LIMIT
}

/// The sum of the values of `vs`.
pub open spec fn sum_vals(vs: Seq<i64>) -> int {
    sum_by(vs, vf())
}

/// The squared deviation of a value from the mean `mn / md`, scaled by
/// `(scale * md)^2`: the deviation of `v / scale` is `v * md - mn * scale`
/// over that common denominator.
pub open spec fn sqdevf(scale: int, mn: int, md: int) -> spec_fn(i64) -> int {
    |v: i64| ((v as int) * md - mn * scale) * ((v as int) * md - mn * scale)
}

/// The product of the deviations of a pair of values from their means
/// `xmn / xmd` and `ymn / ymd`, scaled by `(scale * xmd) * (scale * ymd)`.
pub open spec fn devprodf(scale: int, xmn: int, xmd: int, ymn: int, ymd: int) -> spec_fn(
    i64,
    i64,
) -> int {
    |a: i64, b: i64| ((a as int) * xmd - xmn * scale) * ((b as int) * ymd - ymn * scale)
}

/// The numerator of the sample variance of `vs` about the mean `mn / md`.
pub open spec fn variance_num(vs: Seq<i64>, scale: int, mn: int, md: int) -> int {
    sum_by(vs, sqdevf(scale, mn, md))
}

/// The denominator of the sample variance: `(scale * md)^2 * (n - 1)`.  It
/// is zero when the mean is undefined or fewer than two values are given.
pub open spec fn variance_den(vs: Seq<i64>, scale: int, md: int) -> int {
    (scale * md) * (scale * md) * (vs.len() - 1)
}

/// The numerator of the sample covariance of `xs` and `ys` about the means
/// `xmn / xmd` and `ymn / ymd`.
pub open spec fn covariance_num(
    xs: Seq<i64>,
    ys: Seq<i64>,
    scale: int,
    xmn: int,
    xmd: int,
    ymn: int,
    ymd: int,
) -> int {
    sum_by2(xs, ys, devprodf(scale, xmn, xmd, ymn, ymd))
}

/// The denominator of the sample covariance:
/// `(scale * xmd) * (scale * ymd) * (n - 1)`.
pub open spec fn covariance_den(xs: Seq<i64>, scale: int, xmd: int, ymd: int) -> int {
    (scale * xmd) * (scale * ymd) * (xs.len() - 1)
}

/// The arithmetic mean of `values` (scaled by `scale`), as the exact
/// rational `sum / (n * scale)`; undefined (zero denominator) for an empty
/// sequence.
#[verifier::loop_isolation(false)]
pub fn mean(values: &Vec<i64>, scale: u32) -> (r: Rat)
    requires
        values_ok(values@),
        1 <= scale <= SCALE_LIMIT,
    ensures
        r.num as int == sum_vals(values@),
        r.den as int == values@.len() * scale,
        -256000 <= r.num <= 256000,
        0 <= r.den <= 256000,
{
    let ghost s = values@;
    let n_us: usize = values.len();
    let n: i128 = n_us as i128;
    let mut acc: i128 = 0;
    let mut i: usize = 0;
    while i < n_us
        invariant
            i <= n_us,
            acc as int == sum_vals(s.take(i as int)),
            -1000 * (i as int) <= acc as int <= 1000 * (i as int),
        decreases n_us - i,
    {
        let v = values[i];
        proof {
            assert(value_ok(s[i as int]));
            assert(s.take(i as int + 1).drop_last() =~= s.take(i as int));
            assert(s.take(i as int + 1).last() == s[i as int]);
            assert(vf()(s[i as int]) == v as int);
        }
        acc = acc + v as i128;
        i = i + 1;
    }
    proof {
        assert(s.take(n_us as int) =~= s);
    }
    let sc: i128 = scale as i128;
    assert(0 <= n * sc <= 256000) by (nonlinear_arith)
        requires
            0 <= n <= 256,
            1 <= sc <= 1000,
    ;
    Rat { num: acc, den: n * sc }
}

/// The sample variance of `values` (scaled by `scale`) about the given
/// mean, with the `n - 1` divisor, as an exact rational; undefined (zero
/// denominator) for fewer than two values or an undefined mean.
#[verifier::loop_isolation(false)]
pub fn calc_variance(values: &Vec<i64>, scale: u32, mean: Rat) -> (r: Rat)
    requires
        values_ok(values@),
        1 <= scale <= SCALE_LIMIT,
        mean_ok(mean),
    ensures
        r.num as int == variance_num(values@, scale as int, mean.num as int, mean.den as int),
        r.den as int == variance_den(values@, scale as int, mean.den as int),
{
    let ghost s = values@;
    let n_us: usize = values.len();
    let n: i128 = n_us as i128;
    let mn: i128 = mean.num;
    let md: i128 = mean.den;
    let sc: i128 = scale as i128;
    assert(-1000000000000000 <= mn * sc <= 1000000000000000) by (nonlinear_arith)
        requires
            -1000000000000 <= mn <= 1000000000000,
            1 <= sc <= 1000,
    ;
    let shift: i128 = mn * sc;
    let mut acc: i128 = 0;
    let mut i: usize = 0;
    while i < n_us
        invariant
            i <= n_us,
            acc as int == sum_by(s.take(i as int), sqdevf(sc as int, mn as int, md as int)),
            0 <= acc as int <= (i as int) * 4000000000000000000000000000000,
        decreases n_us - i,
    {
        let v = values[i];
        proof {
            assert(value_ok(s[i as int]));
        }
        assert(-1000000000000000 <= (v as i128) * md <= 1000000000000000) by (nonlinear_arith)
            requires
                -1000 <= v as i128 <= 1000,
                -1000000000000 <= md <= 1000000000000,
        ;
        let dev: i128 = (v as i128) * md - shift;
        assert(0 <= dev * dev <= 4000000000000000000000000000000) by (nonlinear_arith)
            requires
                -2000000000000000 <= dev <= 2000000000000000,
        ;
        proof {
            assert(s.take(i as int + 1).drop_last() =~= s.take(i as int));
            assert(s.take(i as int + 1).last() == s[i as int]);
            assert(sqdevf(sc as int, mn as int, md as int)(s[i as int]) == (dev as int) * (
            dev as int));
        }
        acc = acc + dev * dev;
        i = i + 1;
    }
    proof {
        assert(s.take(n_us as int) =~= s);
    }
    assert(-1000000000000000 <= sc * md <= 1000000000000000) by (nonlinear_arith)
        requires
            1 <= sc <= 1000,
            -1000000000000 <= md <= 1000000000000,
    ;
    let smd: i128 = sc * md;
    assert(0 <= smd * smd <= 1000000000000000000000000000000) by (nonlinear_arith)
        requires
            -1000000000000000 <= smd <= 1000000000000000,
    ;
    let smd2: i128 = smd * smd;
    assert(-1000000000000000000000000000000 <= smd2 * (n - 1)
        <= 255000000000000000000000000000000) by (nonlinear_arith)
        requires
            0 <= smd2 <= 1000000000000000000000000000000,
            -1 <= n - 1 <= 255,
    ;
    Rat { num: acc, den: smd2 * (n - 1) }
}

/// The sample covariance of `x` and `y` (scaled by `scale`) about the
/// given means, with the `n - 1` divisor, as an exact rational; undefined
/// (zero denominator) for fewer than two pairs or an undefined mean.
#[verifier::loop_isolation(false)]
pub fn calc_covariance(x: &Vec<i64>, y: &Vec<i64>, scale: u32, x_mean: Rat, y_mean: Rat) -> (r:
    Rat)
    requires
        x@.len() == y@.len(),
        values_ok(x@),
        values_ok(y@),
        1 <= scale <= SCALE_LIMIT,
        mean_ok(x_mean),
        mean_ok(y_mean),
    ensures
        r.num as int == covariance_num(
            x@,
            y@,
            scale as int,
            x_mean.num as int,
            x_mean.den as int,
            y_mean.num as int,
            y_mean.den as int,
        ),
        r.den as int == covariance_den(x@, scale as int, x_mean.den as int, y_mean.den as int),
{
    let ghost xs = x@;
    let ghost ys = y@;
    let n_us: usize = x.len();
    let n: i128 = n_us as i128;
    let sc: i128 = scale as i128;
    let xmn: i128 = x_mean.num;
    let xmd: i128 = x_mean.den;
    let ymn: i128 = y_mean.num;
    let ymd: i128 = y_mean.den;
    assert(-1000000000000000 <= xmn * sc <= 1000000000000000) by (nonlinear_arith)
        requires
            -1000000000000 <= xmn <= 1000000000000,
            1 <= sc <= 1000,
    ;
    assert(-1000000000000000 <= ymn * sc <= 1000000000000000) by (nonlinear_arith)
        requires
            -1000000000000 <= ymn <= 1000000000000,
            1 <= sc <= 1000,
    ;
    let xshift: i128 = xmn * sc;
    let yshift: i128 = ymn * sc;
    let mut acc: i128 = 0;
    let mut i: usize = 0;
    while i < n_us
        invariant
            i <= n_us,
            acc as int == sum_by2(
                xs.take(i as int),
                ys.take(i as int),
                devprodf(sc as int, xmn as int, xmd as int, ymn as int, ymd as int),
            ),
            -(i as int) * 4000000000000000000000000000000 <= acc as int <= (i as int)
                * 4000000000000000000000000000000,
        decreases n_us - i,
    {
        let a = x[i];
        let b = y[i];
        proof {
            assert(value_ok(xs[i as int]));
            assert(value_ok(ys[i as int]));
        }
        assert(-1000000000000000 <= (a as i128) * xmd <= 1000000000000000) by (nonlinear_arith)
            requires
                -1000 <= a as i128 <= 1000,
                -1000000000000 <= xmd <= 1000000000000,
        ;
        assert(-1000000000000000 <= (b as i128) * ymd <= 1000000000000000) by (nonlinear_arith)
            requires
                -1000 <= b as i128 <= 1000,
                -1000000000000 <= ymd <= 1000000000000,
        ;
        let xdev: i128 = (a as i128) * xmd - xshift;
        let ydev: i128 = (b as i128) * ymd - yshift;
        assert(-4000000000000000000000000000000 <= xdev * ydev
            <= 4000000000000000000000000000000) by (nonlinear_arith)
            requires
                -2000000000000000 <= xdev <= 2000000000000000,
                -2000000000000000 <= ydev <= 2000000000000000,
        ;
        proof {
            assert(xs.take(i as int + 1).drop_last() =~= xs.take(i as int));
            assert(ys.take(i as int + 1).drop_last() =~= ys.take(i as int));
            assert(xs.take(i as int + 1).last() == xs[i as int]);
            assert(ys.take(i as int + 1).last() == ys[i as int]);
            assert(devprodf(sc as int, xmn as int, xmd as int, ymn as int, ymd as int)(
                xs[i as int],
                ys[i as int],
            ) == (xdev as int) * (ydev as int));
        }
        acc = acc + xdev * ydev;
        i = i + 1;
    }
    proof {
        assert(xs.take(n_us as int) =~= xs);
        assert(ys.take(n_us as int) =~= ys);
    }
    assert(-1000000000000000 <= sc * xmd <= 1000000000000000) by (nonlinear_arith)
        requires
            1 <= sc <= 1000,
            -1000000000000 <= xmd <= 1000000000000,
    ;
    assert(-1000000000000000 <= sc * ymd <= 1000000000000000) by (nonlinear_arith)
        requires
            1 <= sc <= 1000,
            -1000000000000 <= ymd <= 1000000000000,
    ;
    let sxmd: i128 = sc * xmd;
    let symd: i128 = sc * ymd;
    assert(-1000000000000000000000000000000 <= sxmd * symd <= 1000000000000000000000000000000)
        by (nonlinear_arith)
        requires
            -1000000000000000 <= sxmd <= 1000000000000000,
            -1000000000000000 <= symd <= 1000000000000000,
    ;
    let smd2: i128 = sxmd * symd;
    assert(-255000000000000000000000000000000 <= smd2 * (n - 1)
        <= 255000000000000000000000000000000) by (nonlinear_arith)
        requires
            -1000000000000000000000000000000 <= smd2 <= 1000000000000000000000000000000,
            -1 <= n - 1 <= 255,
    ;
    Rat { num: acc, den: smd2 * (n - 1) }
}

} // verus!
