//! Histogram flatness criteria.
//!
//! Two implementations of [`Flatness`]:
//!
//! - [`Fraction`]: flat when the minimum visit count is at least the
//!   configured fraction of the mean visit count;
//! - [`RMS`]: flat when the relative population standard deviation
//!   (coefficient of variation) is at most one minus the parameter.
//!
//! Both criteria compare exact integers: the real-valued inequalities are
//! multiplied through by the (positive) bin count and parameter denominator,
//! which preserves them exactly.  An empty histogram is never flat, and the
//! RMS criterion also reports not-flat when the mean is zero, where the
//! real-valued quotient is undefined.

use vstd::prelude::*;

use crate::hist::{
    lemma_min_le_each, lemma_sum_bounds_each, lemma_sum_nonneg, lemma_sum_prefix,
    lemma_sumsq_le_sum_sq, lemma_sumsq_prefix_bound, lemma_uniform_stats, min_seq, sum_seq,
    sumsq_seq,
};
use crate::ratio::Ratio;
use crate::traits::{flat_param_ok, Flatness};

verus! {

/// Flat when `min(hist) >= flat * mean(hist)`.
///
/// The popular criterion: every bin must have been visited at least the
/// configured fraction of the mean visit count.  Parameters typically range
/// from 0.7 to 0.9; higher is stricter.
#[derive(Clone, Copy, Debug, PartialEq, Eq, Structural)]
pub struct Fraction;

/// The Fraction criterion, exactly: `min * len * den >= num * sum`, which is
/// `min >= (num/den) * (sum/len)` multiplied through by the positive
/// `len * den`.
pub open spec fn fraction_flat(h: Seq<u64>, flat: Ratio) -> bool {
    &&& h.len() > 0
    &&& min_seq(h) * h.len() * flat.den >= flat.num * sum_seq(h)
}

impl Flatness for Fraction {
    open spec fn flat_spec(&self, hist: Seq<u64>, flat: Ratio) -> bool {
        fraction_flat(hist, flat)
    }

    fn is_flat(&self, hist: &[u64], flat: &Ratio) -> (r: bool)
        ensures
            r == fraction_flat(hist@, *flat),
    {
        let n: usize = hist.len();
        if n == 0 {
            return false;
        }
        let mut minimum: u64 = hist[0];
        let mut total: u64 = 0;
        let mut i: usize = 0;
        proof {
            lemma_min_le_each(hist@, 0);
        }
        while i < n
            invariant
                0 <= i <= n,
                n == hist@.len(),
                n >= 1,
                total == sum_seq(hist@.take(i as int)),
                sum_seq(hist@) <= u32::MAX,
                i > 0 ==> minimum == min_seq(hist@.take(i as int)),
                i == 0 ==> minimum == hist@[0],
            decreases n - i,
        {
            proof {
                assert(hist@.take(i + 1).drop_last() =~= hist@.take(i as int));
                lemma_sum_prefix(hist@, i + 1);
                lemma_sum_nonneg(hist@.take(i as int));
            }
            let h: u64 = hist[i];
            total = total + h;
            if i == 0 {
                minimum = h;
            } else if h < minimum {
                minimum = h;
            }
            i = i + 1;
        }
        proof {
            assert(hist@.take(n as int) =~= hist@);
            lemma_min_le_each(hist@, 0);
            lemma_sum_bounds_each(hist@, 0);
            assert((minimum as int) * (n as int) <= 0xFFFF_FFFFu64 * 0xFFFF_FFFFu64)
                by (nonlinear_arith)
                requires
                    0 <= minimum <= 0xFFFF_FFFFu64,
                    0 <= n <= 0xFFFF_FFFFu64,
            ;
            assert((minimum as int) * (n as int) * (flat.den as int) <= 0xFFFF_FFFFu64
                * 0xFFFF_FFFFu64 * 0xFFFFu64 && (minimum as int) * (n as int) * (flat.den as int)
                >= 0) by (nonlinear_arith)
                requires
                    0 <= (minimum as int) * (n as int) <= 0xFFFF_FFFFu64 * 0xFFFF_FFFFu64,
                    0 <= flat.den <= 0xFFFFu64,
            ;
            assert((flat.num as int) * (total as int) <= 0xFFFFu64 * 0xFFFF_FFFFu64
                && (flat.num as int) * (total as int) >= 0) by (nonlinear_arith)
                requires
                    0 <= flat.num <= 0xFFFFu64,
                    0 <= total <= 0xFFFF_FFFFu64,
            ;
        }
        let lhs: u128 = (minimum as u128) * (n as u128) * (flat.den as u128);
        let rhs: u128 = (flat.num as u128) * (total as u128);
        lhs >= rhs
    }
}

/// Flat when the relative standard deviation `sigma / mu <= 1 - flat`.
///
/// The coefficient-of-variation criterion, using the population standard
/// deviation (dividing by the bin count, not by one less).  When the
/// parameter is close to 1 this demands a very small spread relative to the
/// mean.
#[derive(Clone, Copy, Debug, PartialEq, Eq, Structural)]
pub struct RMS;

/// The RMS criterion, exactly.  With `S` the sum, `n` the length and `Q` the
/// sum of squares, `sigma^2 / mu^2 = (n*Q - S^2) / S^2`, so
/// `sigma/mu <= (den-num)/den` is, multiplied through by the positive
/// `den^2 * S^2`, exactly `den^2 * (n*Q) <= ((den-num)^2 + den^2) * S^2`.
/// A zero sum (mean zero) is never flat: the real-valued quotient is
/// undefined there.
pub open spec fn rms_flat(h: Seq<u64>, flat: Ratio) -> bool {
    &&& h.len() > 0
    &&& sum_seq(h) > 0
    &&& (flat.den * flat.den) * (h.len() * sumsq_seq(h)) <= ((flat.den - flat.num) * (flat.den
        - flat.num) + flat.den * flat.den) * (sum_seq(h) * sum_seq(h))
}

impl Flatness for RMS {
    open spec fn flat_spec(&self, hist: Seq<u64>, flat: Ratio) -> bool {
        rms_flat(hist, flat)
    }

    fn is_flat(&self, hist: &[u64], flat: &Ratio) -> (r: bool)
        ensures
            r == rms_flat(hist@, *flat),
    {
        let n: usize = hist.len();
        if n == 0 {
            return false;
        }
        let mut total: u64 = 0;
        let mut squares: u64 = 0;
        let mut i: usize = 0;
        while i < n
            invariant
                0 <= i <= n,
                n == hist@.len(),
                total == sum_seq(hist@.take(i as int)),
                squares == sumsq_seq(hist@.take(i as int)),
                sum_seq(hist@) <= u32::MAX,
            decreases n - i,
        {
            proof {
                assert(hist@.take(i + 1).drop_last() =~= hist@.take(i as int));
                lemma_sum_prefix(hist@, i + 1);
                lemma_sum_nonneg(hist@.take(i as int));
                lemma_sumsq_prefix_bound(hist@, i + 1);
                lemma_sum_bounds_each(hist@, i as int);
            }
            let h: u64 = hist[i];
            proof {
                assert((h as int) * (h as int) <= 0xFFFF_FFFFu64 * 0xFFFF_FFFFu64
                    && (h as int) * (h as int) >= 0) by (nonlinear_arith)
                    requires
                        0 <= h <= 0xFFFF_FFFFu64,
                ;
                assert(sum_seq(hist@) * sum_seq(hist@) <= 0xFFFF_FFFFu64 * 0xFFFF_FFFFu64)
                    by (nonlinear_arith)
                    requires
                        0 <= sum_seq(hist@) <= 0xFFFF_FFFFu64,
                ;
            }
            total = total + h;
            squares = squares + h * h;
            i = i + 1;
        }
        proof {
            assert(hist@.take(n as int) =~= hist@);
        }
        if total == 0 {
            return false;
        }
        let spread: u64 = flat.den - flat.num;
        proof {
            assert((flat.den as int) * (flat.den as int) <= 0xFFFFu64 * 0xFFFFu64 && (flat.den
                as int) * (flat.den as int) >= 0 && (spread as int) * (spread as int) <= 0xFFFFu64
                * 0xFFFFu64 && (spread as int) * (spread as int) >= 0) by (nonlinear_arith)
                requires
                    0 <= flat.den <= 0xFFFFu64,
                    0 <= spread <= 0xFFFFu64,
            ;
            lemma_sumsq_le_sum_sq(hist@);
            lemma_sum_nonneg(hist@);
            assert(sum_seq(hist@) * sum_seq(hist@) <= 0xFFFF_FFFFu64 * 0xFFFF_FFFFu64)
                by (nonlinear_arith)
                requires
                    0 <= sum_seq(hist@) <= 0xFFFF_FFFFu64,
            ;
            assert((n as int) * (squares as int) <= 0xFFFF_FFFFu64 * (0xFFFF_FFFFu64
                * 0xFFFF_FFFFu64) && (n as int) * (squares as int) >= 0) by (nonlinear_arith)
                requires
                    0 <= n <= 0xFFFF_FFFFu64,
                    0 <= squares <= 0xFFFF_FFFFu64 * 0xFFFF_FFFFu64,
            ;
            assert((flat.den * flat.den) * ((n as int) * (squares as int)) <= (0xFFFFu64
                * 0xFFFFu64) * (0xFFFF_FFFFu64 * (0xFFFF_FFFFu64 * 0xFFFF_FFFFu64))
                && (flat.den * flat.den) * ((n as int) * (squares as int)) >= 0)
                by (nonlinear_arith)
                requires
                    0 <= flat.den * flat.den <= 0xFFFFu64 * 0xFFFFu64,
                    0 <= (n as int) * (squares as int) <= 0xFFFF_FFFFu64 * (0xFFFF_FFFFu64
                        * 0xFFFF_FFFFu64),
            ;
            assert((total as int) * (total as int) <= 0xFFFF_FFFFu64 * 0xFFFF_FFFFu64 && (total
                as int) * (total as int) >= 0) by (nonlinear_arith)
                requires
                    0 <= total <= 0xFFFF_FFFFu64,
            ;
            assert(((spread * spread) + (flat.den * flat.den)) * ((total as int) * (total as int))
                <= (0xFFFFu64 * 0xFFFFu64 + 0xFFFFu64 * 0xFFFFu64) * (0xFFFF_FFFFu64
                * 0xFFFF_FFFFu64) && ((spread * spread) + (flat.den * flat.den)) * ((total as int)
                * (total as int)) >= 0) by (nonlinear_arith)
                requires
                    0 <= (spread * spread) + (flat.den * flat.den) <= 0xFFFFu64 * 0xFFFFu64
                        + 0xFFFFu64 * 0xFFFFu64,
                    0 <= (total as int) * (total as int) <= 0xFFFF_FFFFu64 * 0xFFFF_FFFFu64,
            ;
        }
        let squares_wide: u128 = squares as u128;
        let lhs: u128 = ((flat.den as u128) * (flat.den as u128)) * ((n as u128) * squares_wide);
        let rhs: u128 = ((spread as u128) * (spread as u128) + (flat.den as u128) * (flat.den
            as u128)) * ((total as u128) * (total as u128));
        lhs <= rhs
    }
}

/// Law: a non-empty histogram with all counts equal is flat under the
/// Fraction criterion for every parameter at most 1 (this includes the
/// all-zero histogram, where both sides of the comparison are zero).
pub proof fn lemma_uniform_fraction_flat(h: Seq<u64>, c: u64, flat: Ratio)
    requires
        h.len() > 0,
        forall|i: int| 0 <= i < h.len() ==> h[i] == c,
        flat.wf(),
        flat.num <= flat.den,
    ensures
        fraction_flat(h, flat),
{
    lemma_uniform_stats(h, c);
    assert((c as int) * h.len() * flat.den >= flat.num * ((c as int) * h.len()))
        by (nonlinear_arith)
        requires
            0 <= flat.num <= flat.den,
            c >= 0,
            h.len() > 0,
    ;
}

/// Law: a non-empty histogram with all counts equal and positive is flat
/// under the RMS criterion for every parameter at most 1: the population
/// standard deviation is zero.  (Unlike the Fraction criterion, the all-zero
/// histogram is not flat here, since the mean is zero.)
pub proof fn lemma_uniform_rms_flat(h: Seq<u64>, c: u64, flat: Ratio)
    requires
        h.len() > 0,
        c >= 1,
        forall|i: int| 0 <= i < h.len() ==> h[i] == c,
        flat.wf(),
        flat.num <= flat.den,
    ensures
        rms_flat(h, flat),
{
    lemma_uniform_stats(h, c);
    assert((c as int) * h.len() >= 1) by (nonlinear_arith)
        requires
            c >= 1,
            h.len() >= 1,
    ;
    assert((flat.den * flat.den) * (h.len() * (((c as int) * (c as int)) * h.len())) <= ((flat.den
        - flat.num) * (flat.den - flat.num) + flat.den * flat.den) * (((c as int) * h.len()) * ((c
        as int) * h.len()))) by (nonlinear_arith)
        requires
            0 <= flat.num <= flat.den,
            c >= 1,
            h.len() >= 1,
    ;
}

/// Law: a histogram in which some bin was never visited while others were
/// (so the sum is positive) is not flat under the Fraction criterion for any
/// positive parameter: the minimum is zero, and zero falls short of any
/// positive fraction of the positive mean.
pub proof fn lemma_zero_bin_not_fraction_flat(h: Seq<u64>, i: int, flat: Ratio)
    requires
        0 <= i < h.len(),
        h[i] == 0,
        sum_seq(h) > 0,
        flat.wf(),
        flat.num >= 1,
    ensures
        !fraction_flat(h, flat),
{
    lemma_min_le_each(h, i);
    assert(min_seq(h) == 0);
    assert(0 * h.len() * flat.den == 0) by (nonlinear_arith);
    assert(flat.num * sum_seq(h) >= 1) by (nonlinear_arith)
        requires
            flat.num >= 1,
            sum_seq(h) >= 1,
    ;
}

} // verus!
