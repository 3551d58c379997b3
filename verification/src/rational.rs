//! Exact rational values and the size limits of the numeric kernel.
//!
//! A [`Rat`] is a plain numerator/denominator pair.  It is never reduced;
//! a denominator of zero marks an undefined value, which is how degenerate
//! statistics (a slope over samples with constant `x`, an R-squared over
//! samples with constant `y`) are reported instead of being trapped.

use vstd::prelude::*;

verus! {

/// The most samples a sample set may hold.  Together with [`COORD_LIMIT`]
/// and [`SCALE_LIMIT`] this keeps every intermediate product of the
/// closed-form fit inside `i128`.
pub const MAX_SAMPLES: usize = 256;

/// The largest magnitude a scaled coordinate may have.
pub const COORD_LIMIT: i64 = 1000;

/// The largest denominator a sample scale may have.
pub const SCALE_LIMIT: u32 = 1000;

/// The largest magnitude a caller-supplied mean's numerator or denominator
/// may have in the statistics helpers.
pub const MEAN_LIMIT: i128 = 1000000000000;

/// An exact rational number: `num / den`, not reduced.
#[derive(Clone, Copy, Debug, PartialEq, Eq, Structural)]
pub struct Rat {
    pub num: i128,
    pub den: i128,
}

/// A rational is defined exactly when its denominator is nonzero; a zero
/// denominator stands for the result of a division by zero.
pub open spec fn rat_is_defined(r: Rat) -> bool {
    r.den != 0
}

impl Rat {
    /// The rational zero, `0 / 1`.
    pub open spec fn zero_spec() -> Rat {
        Rat { num: 0, den: 1 }
    }

    /// Builds the rational `num / den`.
    pub fn new(num: i128, den: i128) -> (r: Rat)
        ensures
            r.num == num,
            r.den == den,
    {
        Rat { num, den }
    }

    /// The rational zero, `0 / 1`: the sentinel an estimator holds before
    /// anything has been computed.
    pub fn zero() -> (r: Rat)
        ensures
            r == Self::zero_spec(),
    {
        Rat { num: 0, den: 1 }
    }
}

} // verus!
