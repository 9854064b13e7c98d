//! Histogram statistics.
//!
//! Spec-level sum, minimum and sum of squares of a visit histogram, with the
//! lemmas the flatness criteria and the driver need.

use vstd::prelude::*;

verus! {

/// The sum of all counts.
pub open spec fn sum_seq(s: Seq<u64>) -> int
    decreases s.len(),
{
    if s.len() == 0 {
        0
    } else {
        sum_seq(s.drop_last()) + s.last()
    }
}

/// The smallest count; meaningful only for a non-empty histogram.
pub open spec fn min_seq(s: Seq<u64>) -> int
    decreases s.len(),
{
    if s.len() == 0 {
        0
    } else if s.len() == 1 {
        s.last() as int
    } else if s.last() < min_seq(s.drop_last()) {
        s.last() as int
    } else {
        min_seq(s.drop_last())
    }
}

/// The sum of squared counts.
pub open spec fn sumsq_seq(s: Seq<u64>) -> int
    decreases s.len(),
{
    if s.len() == 0 {
        0
    } else {
        sumsq_seq(s.drop_last()) + s.last() * s.last()
    }
}

/// The sum of a histogram is non-negative.
pub proof fn lemma_sum_nonneg(s: Seq<u64>)
    ensures
        sum_seq(s) >= 0,
    decreases s.len(),
{
    if s.len() > 0 {
        lemma_sum_nonneg(s.drop_last());
    }
}

/// Extending a histogram by one count adds that count to the sum.
pub proof fn lemma_sum_push(s: Seq<u64>, v: u64)
    ensures
        sum_seq(s.push(v)) == sum_seq(s) + v,
{
    assert(s.push(v).drop_last() =~= s);
}

/// Each count is at most the sum of all counts.
pub proof fn lemma_sum_bounds_each(s: Seq<u64>, i: int)
    requires
        0 <= i < s.len(),
    ensures
        s[i] <= sum_seq(s),
    decreases s.len(),
{
    lemma_sum_nonneg(s.drop_last());
    if i < s.len() - 1 {
        lemma_sum_bounds_each(s.drop_last(), i);
    }
}

/// Raising one count by `d` raises the sum by `d`.
pub proof fn lemma_sum_update(s: Seq<u64>, i: int, v: u64)
    requires
        0 <= i < s.len(),
    ensures
        sum_seq(s.update(i, v)) == sum_seq(s) - s[i] + v,
    decreases s.len(),
{
    if i == s.len() - 1 {
        assert(s.update(i, v).drop_last() =~= s.drop_last());
    } else {
        assert(s.update(i, v).drop_last() =~= s.drop_last().update(i, v));
        lemma_sum_update(s.drop_last(), i, v);
    }
}

/// The sum of a prefix is at most the sum of the whole histogram.
pub proof fn lemma_sum_prefix(s: Seq<u64>, n: int)
    requires
        0 <= n <= s.len(),
    ensures
        sum_seq(s.take(n)) <= sum_seq(s),
    decreases s.len() - n,
{
    if n == s.len() {
        assert(s.take(n) =~= s);
    } else {
        assert(s.take(n + 1).drop_last() =~= s.take(n));
        lemma_sum_prefix(s, n + 1);
    }
}

/// The minimum of a non-empty histogram is at most each count.
pub proof fn lemma_min_le_each(s: Seq<u64>, i: int)
    requires
        0 <= i < s.len(),
    ensures
        min_seq(s) <= s[i],
        min_seq(s) >= 0,
    decreases s.len(),
{
    if s.len() > 1 {
        if i < s.len() - 1 {
            lemma_min_le_each(s.drop_last(), i);
        } else {
            lemma_min_le_each(s.drop_last(), 0);
        }
    }
}

/// The sum of squares is at most the square of the sum (all counts are
/// non-negative, so the cross terms only help).
pub proof fn lemma_sumsq_le_sum_sq(s: Seq<u64>)
    ensures
        sumsq_seq(s) >= 0,
        sumsq_seq(s) <= sum_seq(s) * sum_seq(s),
    decreases s.len(),
{
    if s.len() > 0 {
        lemma_sumsq_le_sum_sq(s.drop_last());
        lemma_sum_nonneg(s.drop_last());
        assert(sumsq_seq(s.drop_last()) + s.last() * s.last() <= (sum_seq(s.drop_last())
            + s.last()) * (sum_seq(s.drop_last()) + s.last())) by (nonlinear_arith)
            requires
                sumsq_seq(s.drop_last()) <= sum_seq(s.drop_last()) * sum_seq(s.drop_last()),
                sum_seq(s.drop_last()) >= 0,
                s.last() >= 0,
        ;
    }
}

/// The sum of squares of a prefix is at most the square of the whole sum.
pub proof fn lemma_sumsq_prefix_bound(s: Seq<u64>, n: int)
    requires
        0 <= n <= s.len(),
    ensures
        0 <= sumsq_seq(s.take(n)) <= sum_seq(s) * sum_seq(s),
{
    lemma_sumsq_le_sum_sq(s.take(n));
    lemma_sum_prefix(s, n);
    lemma_sum_nonneg(s.take(n));
    lemma_sum_nonneg(s);
    assert(sum_seq(s.take(n)) * sum_seq(s.take(n)) <= sum_seq(s) * sum_seq(s))
        by (nonlinear_arith)
        requires
            0 <= sum_seq(s.take(n)) <= sum_seq(s),
    ;
}

/// In an all-equal histogram the sum is the common count times the length
/// and the minimum is the common count.
pub proof fn lemma_uniform_stats(s: Seq<u64>, c: u64)
    requires
        forall|i: int| 0 <= i < s.len() ==> s[i] == c,
    ensures
        sum_seq(s) == c * s.len(),
        sumsq_seq(s) == (c * c) * s.len(),
        s.len() > 0 ==> min_seq(s) == c,
    decreases s.len(),
{
    if s.len() == 0 {
        assert(c * 0 == 0) by (nonlinear_arith);
        assert((c * c) * 0 == 0) by (nonlinear_arith);
    } else {
        lemma_uniform_stats(s.drop_last(), c);
        assert(c * s.len() == c * (s.len() - 1) + c) by (nonlinear_arith);
        assert((c * c) * s.len() == (c * c) * (s.len() - 1) + c * c) by (nonlinear_arith);
    }
}

} // verus!
