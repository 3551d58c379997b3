//! Verified ordinary-least-squares fitting of a two-dimensional point set.
//!
//! Samples are held as integer numerators over a shared positive scale, so
//! every statistic is an exact rational number: a pair of an integer
//! numerator and an integer denominator.  A zero denominator marks a
//! degenerate statistic (the analogue of a division by zero), which the
//! estimator propagates rather than traps.

pub mod linear_regression;
pub mod rational;
pub mod statistics;
pub mod sums;
