//! The ordinary-least-squares estimator: a sample set of scaled integer
//! points, the closed-form slope/intercept fit over it, and the
//! coefficient of determination of that fit, all as exact rationals.

use vstd::prelude::*;

use crate::rational::{rat_is_defined, Rat, COORD_LIMIT, MAX_SAMPLES, SCALE_LIMIT};
use crate::sums::{lemma_sum_by_bound, lemma_sum_by_constant, lemma_sum_by_permutation, sum_by};
use vstd::seq_lib::group_to_multiset_ensures;

verus! {

/// One observation: a pair of scaled integer coordinates.  The point it
/// stands for is `(x / scale, y / scale)` for the scale of the sample set
/// holding it.
#[derive(Clone, Copy, Debug, PartialEq, Eq, Structural)]
pub struct DataPoint {
    pub x: i64,
    pub y: i64,
}

impl DataPoint {
    /// Builds the observation `(x, y)` in scaled units.
    pub fn new(x: i64, y: i64) -> (p: DataPoint)
        ensures
            p.x == x,
            p.y == y,
    {
        DataPoint { x, y }
    }
}

/// The `x` coordinate of a point, as a mathematical integer.
pub open spec fn xf() -> spec_fn(DataPoint) -> int {
    |p: DataPoint| p.x as int
}

/// The `y` coordinate of a point, as a mathematical integer.
pub open spec fn yf() -> spec_fn(DataPoint) -> int {
    |p: DataPoint| p.y as int
}

/// The product of the coordinates of a point.
pub open spec fn xyf() -> spec_fn(DataPoint) -> int {
    |p: DataPoint| (p.x as int) * (p.y as int)
}

/// The square of the `x` coordinate of a point.
pub open spec fn xxf() -> spec_fn(DataPoint) -> int {
    |p: DataPoint| (p.x as int) * (p.x as int)
}

/// The sum of the `x` coordinates of `s`.
pub open spec fn sum_x(s: Seq<DataPoint>) -> int {
    sum_by(s, xf())
}

/// The sum of the `y` coordinates of `s`.
pub open spec fn sum_y(s: Seq<DataPoint>) -> int {
    sum_by(s, yf())
}

/// The sum of the coordinate products of `s`.
pub open spec fn sum_xy(s: Seq<DataPoint>) -> int {
    sum_by(s, xyf())
}

/// The sum of the squared `x` coordinates of `s`.
pub open spec fn sum_xx(s: Seq<DataPoint>) -> int {
    sum_by(s, xxf())
}

/// The numerator of the closed-form slope: `n * sum_xy - sum_x * sum_y`.
pub open spec fn slope_num(s: Seq<DataPoint>) -> int {
    s.len() * sum_xy(s) - sum_x(s) * sum_y(s)
}

/// The denominator of the closed-form slope: `n * sum_xx - sum_x * sum_x`.
/// It is zero exactly when the slope is undefined.
pub open spec fn slope_den(s: Seq<DataPoint>) -> int {
    s.len() * sum_xx(s) - sum_x(s) * sum_x(s)
}

/// The numerator of the intercept `(sum_y - slope * sum_x) / n`, written
/// over the common denominator `n * scale * slope_den`.
pub open spec fn intercept_num(s: Seq<DataPoint>) -> int {
    slope_den(s) * sum_y(s) - slope_num(s) * sum_x(s)
}

/// The denominator of the intercept.  `scale` is the shared denominator of
/// the scaled sample coordinates.
pub open spec fn intercept_den(s: Seq<DataPoint>, scale: int) -> int {
    s.len() * scale * slope_den(s)
}

/// The squared residual of a point against the fitted line, scaled by
/// `(n * scale * slope_den)^2`: with `sn / sd` the slope and
/// `ic` the intercept numerator, the residual of `(x, y)` is
/// `(n * sd * y - n * sn * x - ic)` over that common denominator.
pub open spec fn residf(n: int, sn: int, sd: int, ic: int) -> spec_fn(DataPoint) -> int {
    |p: DataPoint| (n * sd * (p.y as int) - n * sn * (p.x as int) - ic) * (n * sd * (p.y as int)
        - n * sn * (p.x as int) - ic)
}

/// The squared deviation of a point's `y` from the mean of the `y` values,
/// scaled by `(n * scale)^2`: the deviation of `y` is `n * y - sum_y` over
/// that common denominator.
pub open spec fn devf(n: int, sy: int) -> spec_fn(DataPoint) -> int {
    |p: DataPoint| (n * (p.y as int) - sy) * (n * (p.y as int) - sy)
}

/// The residual sum of squares of `s` against its own fitted line, scaled
/// by `(n * scale * slope_den)^2`.
pub open spec fn ss_res_scaled(s: Seq<DataPoint>) -> int {
    sum_by(s, residf(s.len() as int, slope_num(s), slope_den(s), intercept_num(s)))
}

/// The total sum of squares of the `y` values of `s` about their mean,
/// scaled by `(n * scale)^2`.
pub open spec fn ss_tot_scaled(s: Seq<DataPoint>) -> int {
    sum_by(s, devf(s.len() as int, sum_y(s)))
}

/// The numerator of `1 - ss_res / ss_tot` over the denominator
/// `slope_den^2 * ss_tot_scaled`: the scale factors of the two sums cancel.
pub open spec fn r2_num(s: Seq<DataPoint>) -> int {
    slope_den(s) * slope_den(s) * ss_tot_scaled(s) - ss_res_scaled(s)
}

/// The denominator of the coefficient of determination.  It is zero
/// exactly when the `y` values have no spread (or the slope itself is
/// undefined), where R-squared is undefined.
pub open spec fn r2_den(s: Seq<DataPoint>) -> int {
    slope_den(s) * slope_den(s) * ss_tot_scaled(s)
}

/// A point whose scaled coordinates are within the magnitude the exact
/// 128-bit arithmetic of the estimator allows.
pub open spec fn point_ok(p: DataPoint) -> bool {
    &&& -COORD_LIMIT <= p.x <= COORD_LIMIT
    &&& -COORD_LIMIT <= p.y <= COORD_LIMIT
}

/// A sample sequence the estimator can fit exactly: not too long, every
/// coordinate within [`COORD_LIMIT`].
pub open spec fn samples_ok(s: Seq<DataPoint>) -> bool {
    &&& s.len() <= MAX_SAMPLES
    &&& forall|i: int| 0 <= i < s.len() ==> point_ok(#[trigger] s[i])
}

/// Magnitude bounds on every derived quantity of an admissible sample
/// sequence; they keep the exact computation inside `i128`.
proof fn lemma_model_bounds(s: Seq<DataPoint>)
    requires
        samples_ok(s),
    ensures
        -256000 <= sum_x(s) <= 256000,
        -256000 <= sum_y(s) <= 256000,
        -256000000 <= sum_xy(s) <= 256000000,
        -256000000 <= sum_xx(s) <= 256000000,
        -131072000000 <= slope_num(s) <= 131072000000,
        -131072000000 <= slope_den(s) <= 131072000000,
        -67108864000000000 <= intercept_num(s) <= 67108864000000000,
{
    assert forall|i: int| 0 <= i < s.len() implies -1000 <= #[trigger] (xf()(s[i])) <= 1000 by {
        assert(point_ok(s[i]));
    }
    assert forall|i: int| 0 <= i < s.len() implies -1000 <= #[trigger] (yf()(s[i])) <= 1000 by {
        assert(point_ok(s[i]));
    }
    assert forall|i: int| 0 <= i < s.len() implies -1000000 <= #[trigger] (xyf()(s[i]))
        <= 1000000 by {
        assert(point_ok(s[i]));
        assert(-1000000 <= (s[i].x as int) * (s[i].y as int) <= 1000000) by (nonlinear_arith)
            requires
                -1000 <= s[i].x as int <= 1000,
                -1000 <= s[i].y as int <= 1000,
        ;
    }
    assert forall|i: int| 0 <= i < s.len() implies -1000000 <= #[trigger] (xxf()(s[i]))
        <= 1000000 by {
        assert(point_ok(s[i]));
        assert(-1000000 <= (s[i].x as int) * (s[i].x as int) <= 1000000) by (nonlinear_arith)
            requires
                -1000 <= s[i].x as int <= 1000,
        ;
    }
    lemma_sum_by_bound(s, xf(), 1000);
    lemma_sum_by_bound(s, yf(), 1000);
    lemma_sum_by_bound(s, xyf(), 1000000);
    lemma_sum_by_bound(s, xxf(), 1000000);
    assert(s.len() * 1000 <= 256000);
    assert(s.len() * 1000000 <= 256000000);
    assert(-65536000000 <= s.len() * sum_xy(s) <= 65536000000) by (nonlinear_arith)
        requires
            0 <= s.len() <= 256,
            -256000000 <= sum_xy(s) <= 256000000,
    ;
    assert(-65536000000 <= s.len() * sum_xx(s) <= 65536000000) by (nonlinear_arith)
        requires
            0 <= s.len() <= 256,
            -256000000 <= sum_xx(s) <= 256000000,
    ;
    assert(-65536000000 <= sum_x(s) * sum_y(s) <= 65536000000) by (nonlinear_arith)
        requires
            -256000 <= sum_x(s) <= 256000,
            -256000 <= sum_y(s) <= 256000,
    ;
    assert(-65536000000 <= sum_x(s) * sum_x(s) <= 65536000000) by (nonlinear_arith)
        requires
            -256000 <= sum_x(s) <= 256000,
    ;
    assert(-33554432000000000 <= slope_den(s) * sum_y(s) <= 33554432000000000)
        by (nonlinear_arith)
        requires
            -131072000000 <= slope_den(s) <= 131072000000,
            -256000 <= sum_y(s) <= 256000,
    ;
    assert(-33554432000000000 <= slope_num(s) * sum_x(s) <= 33554432000000000)
        by (nonlinear_arith)
        requires
            -131072000000 <= slope_num(s) <= 131072000000,
            -256000 <= sum_x(s) <= 256000,
    ;
}

/// Fits a line through a set of scaled integer samples with the
/// closed-form normal equations, and reports the fit as exact rationals.
///
/// The sample set is taken once at construction and never mutated.  The
/// three fit statistics start at the sentinel zero and are populated by an
/// explicit [`calculate`](LinearRegression::calculate) step; reading them
/// earlier yields the sentinel, not an error.
pub struct LinearRegression {
    data: Vec<DataPoint>,
    scale: u32,
    coefficient: Rat,
    intercept: Rat,
    goodness_of_fit: Rat,
}

impl LinearRegression {
    /// The sample sequence the estimator holds.
    pub closed spec fn samples(self) -> Seq<DataPoint> {
        self.data@
    }

    /// The shared denominator of the scaled sample coordinates.
    pub closed spec fn scale_spec(self) -> int {
        self.scale as int
    }

    /// The slope of the fitted line, as last computed.
    pub closed spec fn coefficient_spec(self) -> Rat {
        self.coefficient
    }

    /// The intercept of the fitted line, as last computed.
    pub closed spec fn intercept_spec(self) -> Rat {
        self.intercept
    }

    /// The coefficient of determination, as last computed.
    pub closed spec fn goodness_spec(self) -> Rat {
        self.goodness_of_fit
    }

    /// A well-formed estimator: admissible samples, a positive scale
    /// within [`SCALE_LIMIT`].
    pub open spec fn wf(self) -> bool {
        &&& samples_ok(self.samples())
        &&& 1 <= self.scale_spec() <= SCALE_LIMIT
    }

    /// Takes a copy of `data` (coordinates scaled by `scale`) and starts
    /// every statistic at the sentinel zero.
    pub fn load(data: &Vec<DataPoint>, scale: u32) -> (lr: LinearRegression)
        requires
            samples_ok(data@),
            1 <= scale <= SCALE_LIMIT,
        ensures
            lr.wf(),
            lr.samples() == data@,
            lr.scale_spec() == scale as int,
            lr.coefficient_spec() == Rat::zero_spec(),
            lr.intercept_spec() == Rat::zero_spec(),
            lr.goodness_spec() == Rat::zero_spec(),
    {
        let mut copy: Vec<DataPoint> = Vec::new();
        let mut i: usize = 0;
        while i < data.len()
            invariant
                i <= data.len(),
                copy@ =~= data@.take(i as int),
            decreases data.len() - i,
        {
            copy.push(data[i]);
            proof {
                assert(data@.take(i as int + 1).drop_last() =~= data@.take(i as int));
            }
            i = i + 1;
        }
        proof {
            assert(data@.take(data@.len() as int) =~= data@);
        }
        LinearRegression {
            data: copy,
            scale,
            coefficient: Rat::zero(),
            intercept: Rat::zero(),
            goodness_of_fit: Rat::zero(),
        }
    }

    /// Like [`load`](LinearRegression::load), but checks the sample and
    /// scale limits instead of requiring them: `Some` exactly when the
    /// samples are admissible and the scale is in range.
    pub fn try_load(data: &Vec<DataPoint>, scale: u32) -> (r: Option<LinearRegression>)
        ensures
            r is Some <==> (samples_ok(data@) && 1 <= scale <= SCALE_LIMIT),
            r is Some ==> r->Some_0.wf() && r->Some_0.samples() == data@
                && r->Some_0.scale_spec() == scale as int,
            r is Some ==> r->Some_0.coefficient_spec() == Rat::zero_spec()
                && r->Some_0.intercept_spec() == Rat::zero_spec()
                && r->Some_0.goodness_spec() == Rat::zero_spec(),
    {
        if scale < 1 || scale > SCALE_LIMIT {
            return None;
        }
        if data.len() > MAX_SAMPLES {
            return None;
        }
        let mut i: usize = 0;
        while i < data.len()
            invariant
                i <= data.len(),
                forall|j: int| 0 <= j < i ==> point_ok(#[trigger] data@[j]),
            decreases data.len() - i,
        {
            let p = data[i];
            if p.x < -COORD_LIMIT || p.x > COORD_LIMIT || p.y < -COORD_LIMIT || p.y > COORD_LIMIT {
                assert(!point_ok(data@[i as int]));
                return None;
            }
            i = i + 1;
        }
        Some(Self::load(data, scale))
    }

    /// The `(slope, intercept)` pair as last computed; before
    /// [`calculate`](LinearRegression::calculate) this is the sentinel
    /// pair of zeros.
    pub fn get_slope_intercept(&self) -> (r: (Rat, Rat))
        ensures
            r.0 == self.coefficient_spec(),
            r.1 == self.intercept_spec(),
    {
        (self.coefficient, self.intercept)
    }

    /// The coefficient of determination as last computed; before
    /// [`calculate`](LinearRegression::calculate) this is the sentinel
    /// zero.
    pub fn r_squared(&self) -> (r: Rat)
        ensures
            r == self.goodness_spec(),
    {
        self.goodness_of_fit
    }

    /// Populates slope, intercept and R-squared from the stored samples.
    /// The result is a pure function of the sample sequence and the scale,
    /// so a repeated call recomputes exactly the same three rationals.
    pub fn calculate(&mut self)
        requires
            old(self).wf(),
        ensures
            final(self).wf(),
            final(self).samples() == old(self).samples(),
            final(self).scale_spec() == old(self).scale_spec(),
            final(self).coefficient_spec().num as int == slope_num(old(self).samples()),
            final(self).coefficient_spec().den as int == slope_den(old(self).samples()),
            final(self).intercept_spec().num as int == intercept_num(old(self).samples()),
            final(self).intercept_spec().den as int == intercept_den(
                old(self).samples(),
                old(self).scale_spec(),
            ),
            final(self).goodness_spec().num as int == r2_num(old(self).samples()),
            final(self).goodness_spec().den as int == r2_den(old(self).samples()),
            rat_is_defined(final(self).coefficient_spec()) <==> slope_den(old(self).samples())
                != 0,
            rat_is_defined(final(self).goodness_spec()) <==> r2_den(old(self).samples()) != 0,
    {
        self.calc_slope_intercept();
        self.calc_goodness_of_fit();
    }

    /// Computes the closed-form slope and intercept in one left-to-right
    /// pass over the samples.
    #[verifier::loop_isolation(false)]
    fn calc_slope_intercept(&mut self)
        requires
            old(self).wf(),
        ensures
            final(self).wf(),
            final(self).samples() == old(self).samples(),
            final(self).scale_spec() == old(self).scale_spec(),
            final(self).goodness_spec() == old(self).goodness_spec(),
            final(self).coefficient_spec().num as int == slope_num(old(self).samples()),
            final(self).coefficient_spec().den as int == slope_den(old(self).samples()),
            final(self).intercept_spec().num as int == intercept_num(old(self).samples()),
            final(self).intercept_spec().den as int == intercept_den(
                old(self).samples(),
                old(self).scale_spec(),
            ),
    {
        let ghost s = self.data@;
        let n_us: usize = self.data.len();
        let n: i128 = n_us as i128;
        let mut sa: i128 = 0;
        let mut sb: i128 = 0;
        let mut sab: i128 = 0;
        let mut saa: i128 = 0;
        let mut i: usize = 0;
        while i < n_us
            invariant
                i <= n_us,
                sa as int == sum_x(s.take(i as int)),
                sb as int == sum_y(s.take(i as int)),
                sab as int == sum_xy(s.take(i as int)),
                saa as int == sum_xx(s.take(i as int)),
                -1000 * (i as int) <= sa as int <= 1000 * (i as int),
                -1000 * (i as int) <= sb as int <= 1000 * (i as int),
                -1000000 * (i as int) <= sab as int <= 1000000 * (i as int),
                -1000000 * (i as int) <= saa as int <= 1000000 * (i as int),
            decreases n_us - i,
        {
            let p = self.data[i];
            proof {
                assert(point_ok(s[i as int]));
            }
            let px: i128 = p.x as i128;
            let py: i128 = p.y as i128;
            assert(-1000000 <= px * py <= 1000000) by (nonlinear_arith)
                requires
                    -1000 <= px <= 1000,
                    -1000 <= py <= 1000,
            ;
            assert(-1000000 <= px * px <= 1000000) by (nonlinear_arith)
                requires
                    -1000 <= px <= 1000,
            ;
            proof {
                assert(s.take(i as int + 1).drop_last() =~= s.take(i as int));
                assert(s.take(i as int + 1).last() == s[i as int]);
                assert(xf()(s[i as int]) == p.x as int);
                assert(yf()(s[i as int]) == p.y as int);
                assert(xyf()(s[i as int]) == (p.x as int) * (p.y as int));
                assert(xxf()(s[i as int]) == (p.x as int) * (p.x as int));
            }
            sa = sa + px;
            sb = sb + py;
            sab = sab + px * py;
            saa = saa + px * px;
            i = i + 1;
        }
        proof {
            assert(s.take(n_us as int) =~= s);
            lemma_model_bounds(s);
        }
        assert(-65536000000 <= n * sab <= 65536000000) by (nonlinear_arith)
            requires
                0 <= n <= 256,
                -256000000 <= sab <= 256000000,
        ;
        assert(-65536000000 <= n * saa <= 65536000000) by (nonlinear_arith)
            requires
                0 <= n <= 256,
                -256000000 <= saa <= 256000000,
        ;
        assert(-65536000000 <= sa * sb <= 65536000000) by (nonlinear_arith)
            requires
                -256000 <= sa <= 256000,
                -256000 <= sb <= 256000,
        ;
        assert(-65536000000 <= sa * sa <= 65536000000) by (nonlinear_arith)
            requires
                -256000 <= sa <= 256000,
        ;
        let nn: i128 = n * sab - sa * sb;
        let dd: i128 = n * saa - sa * sa;
        assert(-33554432000000000 <= dd * sb <= 33554432000000000) by (nonlinear_arith)
            requires
                -131072000000 <= dd <= 131072000000,
                -256000 <= sb <= 256000,
        ;
        assert(-33554432000000000 <= nn * sa <= 33554432000000000) by (nonlinear_arith)
            requires
                -131072000000 <= nn <= 131072000000,
                -256000 <= sa <= 256000,
        ;
        let icn: i128 = dd * sb - nn * sa;
        let sc: i128 = self.scale as i128;
        assert(0 <= n * sc <= 256000) by (nonlinear_arith)
            requires
                0 <= n <= 256,
                1 <= sc <= 1000,
        ;
        let nsc: i128 = n * sc;
        assert(-33554432000000000 <= nsc * dd <= 33554432000000000) by (nonlinear_arith)
            requires
                0 <= nsc <= 256000,
                -131072000000 <= dd <= 131072000000,
        ;
        let icd: i128 = nsc * dd;
        self.coefficient = Rat { num: nn, den: dd };
        self.intercept = Rat { num: icn, den: icd };
    }

    /// Computes `1 - ss_res / ss_tot` over the stored samples against the
    /// slope and intercept already stored, as one exact rational.
    #[verifier::loop_isolation(false)]
    fn calc_goodness_of_fit(&mut self)
        requires
            old(self).wf(),
            old(self).coefficient_spec().num as int == slope_num(old(self).samples()),
            old(self).coefficient_spec().den as int == slope_den(old(self).samples()),
            old(self).intercept_spec().num as int == intercept_num(old(self).samples()),
        ensures
            final(self).wf(),
            final(self).samples() == old(self).samples(),
            final(self).scale_spec() == old(self).scale_spec(),
            final(self).coefficient_spec() == old(self).coefficient_spec(),
            final(self).intercept_spec() == old(self).intercept_spec(),
            final(self).goodness_spec().num as int == r2_num(old(self).samples()),
            final(self).goodness_spec().den as int == r2_den(old(self).samples()),
    {
        let ghost s = self.data@;
        proof {
            lemma_model_bounds(s);
        }
        let n_us: usize = self.data.len();
        let n: i128 = n_us as i128;
        let nn: i128 = self.coefficient.num;
        let dd: i128 = self.coefficient.den;
        let icn: i128 = self.intercept.num;
        let mut sb: i128 = 0;
        let mut i: usize = 0;
        while i < n_us
            invariant
                i <= n_us,
                sb as int == sum_y(s.take(i as int)),
                -1000 * (i as int) <= sb as int <= 1000 * (i as int),
            decreases n_us - i,
        {
            let p = self.data[i];
            proof {
                assert(point_ok(s[i as int]));
                assert(s.take(i as int + 1).drop_last() =~= s.take(i as int));
                assert(s.take(i as int + 1).last() == s[i as int]);
                assert(yf()(s[i as int]) == p.y as int);
            }
            sb = sb + p.y as i128;
            i = i + 1;
        }
        proof {
            assert(s.take(n_us as int) =~= s);
        }
        assert(-33554432000000 <= n * dd <= 33554432000000) by (nonlinear_arith)
            requires
                0 <= n <= 256,
                -131072000000 <= dd <= 131072000000,
        ;
        assert(-33554432000000 <= n * nn <= 33554432000000) by (nonlinear_arith)
            requires
                0 <= n <= 256,
                -131072000000 <= nn <= 131072000000,
        ;
        let nd: i128 = n * dd;
        let nnn: i128 = n * nn;
        let mut u: i128 = 0;
        let mut v: i128 = 0;
        i = 0;
        while i < n_us
            invariant
                i <= n_us,
                u as int == sum_by(
                    s.take(i as int),
                    residf(s.len() as int, slope_num(s), slope_den(s), intercept_num(s)),
                ),
                v as int == sum_by(s.take(i as int), devf(s.len() as int, sum_y(s))),
                0 <= u as int <= (i as int) * 18014398509481984000000000000000000,
                0 <= v as int <= (i as int) * 262144000000,
            decreases n_us - i,
        {
            let p = self.data[i];
            proof {
                assert(point_ok(s[i as int]));
            }
            let px: i128 = p.x as i128;
            let py: i128 = p.y as i128;
            assert(-33554432000000000 <= nd * py <= 33554432000000000) by (nonlinear_arith)
                requires
                    -33554432000000 <= nd <= 33554432000000,
                    -1000 <= py <= 1000,
            ;
            assert(-33554432000000000 <= nnn * px <= 33554432000000000) by (nonlinear_arith)
                requires
                    -33554432000000 <= nnn <= 33554432000000,
                    -1000 <= px <= 1000,
            ;
            let t: i128 = nd * py - nnn * px - icn;
            assert(0 <= t * t <= 18014398509481984000000000000000000) by (nonlinear_arith)
                requires
                    -134217728000000000 <= t <= 134217728000000000,
            ;
            assert(-256000 <= n * py <= 256000) by (nonlinear_arith)
                requires
                    0 <= n <= 256,
                    -1000 <= py <= 1000,
            ;
            let m: i128 = n * py - sb;
            assert(0 <= m * m <= 262144000000) by (nonlinear_arith)
                requires
                    -512000 <= m <= 512000,
            ;
            proof {
                assert(s.take(i as int + 1).drop_last() =~= s.take(i as int));
                assert(s.take(i as int + 1).last() == s[i as int]);
                assert(residf(s.len() as int, slope_num(s), slope_den(s), intercept_num(s))(
                    s[i as int],
                ) == (t as int) * (t as int));
                assert(devf(s.len() as int, sum_y(s))(s[i as int]) == (m as int) * (m as int));
            }
            u = u + t * t;
            v = v + m * m;
            i = i + 1;
        }
        proof {
            assert(s.take(n_us as int) =~= s);
        }
        assert(0 <= dd * dd <= 17179869184000000000000) by (nonlinear_arith)
            requires
                -131072000000 <= dd <= 131072000000,
        ;
        let dd2: i128 = dd * dd;
        assert(0 <= dd2 * v <= 1152921504606846976000000000000000000) by (nonlinear_arith)
            requires
                0 <= dd2 <= 17179869184000000000000,
                0 <= v <= 67108864000000,
        ;
        let den: i128 = dd2 * v;
        let num: i128 = den - u;
        self.goodness_of_fit = Rat { num, den };
    }
}

/// Fits a line through `data` (coordinates scaled by `scale`) in one step
/// and returns the exact `(slope, intercept)` pair of the closed-form
/// normal equations.
pub fn linear_regression(data: &Vec<DataPoint>, scale: u32) -> (r: (Rat, Rat))
    requires
        samples_ok(data@),
        1 <= scale <= SCALE_LIMIT,
    ensures
        r.0.num as int == slope_num(data@),
        r.0.den as int == slope_den(data@),
        r.1.num as int == intercept_num(data@),
        r.1.den as int == intercept_den(data@, scale as int),
{
    let mut lr = LinearRegression::load(data, scale);
    lr.calculate();
    lr.get_slope_intercept()
}

/// When every sample has the same `x` coordinate `c`, the slope
/// denominator is zero: the slope the estimator computes is undefined,
/// never a finite value.
pub proof fn lemma_constant_x_slope_undefined(s: Seq<DataPoint>, c: int)
    requires
        forall|i: int| 0 <= i < s.len() ==> (#[trigger] s[i]).x as int == c,
    ensures
        slope_den(s) == 0,
{
    let n = s.len() as int;
    assert forall|i: int| 0 <= i < s.len() implies #[trigger] (xf()(s[i])) == c by {}
    assert forall|i: int| 0 <= i < s.len() implies #[trigger] (xxf()(s[i])) == c * c by {}
    lemma_sum_by_constant(s, xf(), c);
    lemma_sum_by_constant(s, xxf(), c * c);
    assert(n * (n * (c * c)) - (n * c) * (n * c) == 0) by (nonlinear_arith);
}

/// When every sample has the same `y` coordinate `c`, the total sum of
/// squares is zero, so the denominator of R-squared is zero: the
/// coefficient of determination is undefined.
pub proof fn lemma_constant_y_r_squared_undefined(s: Seq<DataPoint>, c: int)
    requires
        forall|i: int| 0 <= i < s.len() ==> (#[trigger] s[i]).y as int == c,
    ensures
        ss_tot_scaled(s) == 0,
        r2_den(s) == 0,
{
    let n = s.len() as int;
    assert forall|i: int| 0 <= i < s.len() implies #[trigger] (yf()(s[i])) == c by {}
    lemma_sum_by_constant(s, yf(), c);
    assert forall|i: int| 0 <= i < s.len() implies #[trigger] (devf(n, sum_y(s))(s[i])) == 0 by {
        assert(n * (s[i].y as int) - sum_y(s) == 0);
    }
    lemma_sum_by_constant(s, devf(n, sum_y(s)), 0);
    assert(slope_den(s) * slope_den(s) * 0 == 0) by (nonlinear_arith);
}

/// The three statistics an estimation stores are a function of the sample
/// sequence and the scale alone: two estimators over the same data agree
/// on all of them, so recomputing on the same estimator yields the
/// identical triple.
pub proof fn lemma_fit_deterministic(a: LinearRegression, b: LinearRegression)
    requires
        a.samples() == b.samples(),
        a.scale_spec() == b.scale_spec(),
    ensures
        slope_num(a.samples()) == slope_num(b.samples()),
        slope_den(a.samples()) == slope_den(b.samples()),
        intercept_num(a.samples()) == intercept_num(b.samples()),
        intercept_den(a.samples(), a.scale_spec()) == intercept_den(b.samples(), b.scale_spec()),
        r2_num(a.samples()) == r2_num(b.samples()),
        r2_den(a.samples()) == r2_den(b.samples()),
{
}

/// Reordering the samples changes none of the fitted statistics: every
/// reduction of the fit is a sum, and sums do not depend on the order of
/// their terms.
pub proof fn lemma_fit_order_independent(s1: Seq<DataPoint>, s2: Seq<DataPoint>, scale: int)
    requires
        s1.to_multiset() == s2.to_multiset(),
    ensures
        slope_num(s1) == slope_num(s2),
        slope_den(s1) == slope_den(s2),
        intercept_num(s1) == intercept_num(s2),
        intercept_den(s1, scale) == intercept_den(s2, scale),
        r2_num(s1) == r2_num(s2),
        r2_den(s1) == r2_den(s2),
{
    broadcast use group_to_multiset_ensures;

    assert(s1.to_multiset().len() == s1.len());
    assert(s2.to_multiset().len() == s2.len());
    lemma_sum_by_permutation(s1, s2, xf());
    lemma_sum_by_permutation(s1, s2, yf());
    lemma_sum_by_permutation(s1, s2, xyf());
    lemma_sum_by_permutation(s1, s2, xxf());
    lemma_sum_by_permutation(
        s1,
        s2,
        residf(s1.len() as int, slope_num(s1), slope_den(s1), intercept_num(s1)),
    );
    lemma_sum_by_permutation(s1, s2, devf(s1.len() as int, sum_y(s1)));
}

} // verus!
