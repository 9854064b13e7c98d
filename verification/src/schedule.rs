//! Modification factor schedules.
//!
//! Two implementations of [`Schedule`]:
//!
//! - [`Geometric`]: multiplies `ln_f` by a constant factor (typically 1/2)
//!   at every flatness event — the schedule of the original Wang-Landau
//!   prescription;
//! - [`OneOverT`]: the Belardinelli-Pereyra schedule, which sets `ln_f` to
//!   the reciprocal of an internal counter advanced at every flatness event.
//!
//! Both report convergence exactly when the new `ln_f` lies strictly below
//! their configured tolerance.

use vstd::prelude::*;

use crate::ratio::{lemma_times_wf, times_spec, vlt, Ratio};
use crate::traits::Schedule;

verus! {

/// Multiplies `ln_f` by `alpha` on every update; converged when the result
/// falls below `tol`.
#[derive(Clone, Copy, Debug, PartialEq, Eq, Structural)]
pub struct Geometric {
    /// The factor `ln_f` is multiplied by, normally strictly between 0 and 1.
    pub alpha: Ratio,
    /// The convergence tolerance for `ln_f`.
    pub tol: Ratio,
}

impl Schedule for Geometric {
    open spec fn sched_inv(&self) -> bool {
        &&& self.alpha.wf()
        &&& self.tol.wf()
    }

    open spec fn update_spec(
        pre: Geometric,
        post: Geometric,
        f_pre: Ratio,
        f_post: Ratio,
        converged: bool,
    ) -> bool {
        &&& post == pre
        &&& f_post == times_spec(f_pre, pre.alpha)
        &&& converged == vlt(f_post, pre.tol)
    }

    fn update(&mut self, ln_f: &mut Ratio) -> (converged: bool)
        ensures
            *final(self) == *old(self),
            *final(ln_f) == times_spec(*old(ln_f), old(self).alpha),
            converged == vlt(*final(ln_f), old(self).tol),
    {
        proof {
            lemma_times_wf(*ln_f, self.alpha);
        }
        *ln_f = ln_f.times(&self.alpha);
        ln_f.lt(&self.tol)
    }
}

/// `b` to the power `e`.
pub open spec fn pow_nat(b: int, e: nat) -> int
    decreases e,
{
    if e == 0 {
        1
    } else {
        b * pow_nat(b, (e - 1) as nat)
    }
}

/// The value of the geometric factor after `k` updates: `f0` multiplied by
/// `alpha`, `k` times, as performed by [`Geometric::update`].
pub open spec fn geometric_iter(f0: Ratio, alpha: Ratio, k: nat) -> Ratio
    decreases k,
{
    if k == 0 {
        f0
    } else {
        times_spec(geometric_iter(f0, alpha, (k - 1) as nat), alpha)
    }
}

/// Law: as long as the products stay representable, `k` updates of the
/// geometric schedule take the modification factor from `f0` exactly to
/// `f0 * alpha^k`; combined with [`Geometric::update`]'s postcondition, the
/// `k`-th update reports convergence exactly when that value is below the
/// tolerance.
pub proof fn lemma_geometric_schedule(f0: Ratio, alpha: Ratio, k: nat)
    requires
        f0.wf(),
        alpha.wf(),
        f0.num * pow_nat(alpha.num as int, k) <= u64::MAX,
        f0.den * pow_nat(alpha.den as int, k) <= u64::MAX,
    ensures
        geometric_iter(f0, alpha, k) == (Ratio {
            num: (f0.num * pow_nat(alpha.num as int, k)) as u64,
            den: (f0.den * pow_nat(alpha.den as int, k)) as u64,
        }),
    decreases k,
{
    let an = alpha.num as int;
    let ad = alpha.den as int;
    if k == 0 {
        assert(pow_nat(an, 0) == 1 && pow_nat(ad, 0) == 1);
    } else {
        let j = (k - 1) as nat;
        assert(pow_nat(an, k) == an * pow_nat(an, j) && pow_nat(ad, k) == ad * pow_nat(ad, j));
        lemma_pow_nonneg(an, j);
        lemma_pow_nonneg(ad, j);
        assert(f0.num * pow_nat(an, j) <= u64::MAX && (f0.num * pow_nat(an, j)) * an == f0.num * pow_nat(
            an,
            k,
        )) by (nonlinear_arith)
            requires
                pow_nat(an, k) == an * pow_nat(an, j),
                f0.num * pow_nat(an, k) <= u64::MAX,
                f0.num >= 0,
                f0.num <= u64::MAX,
                0 <= an <= u64::MAX,
                pow_nat(an, j) >= 0,
        ;
        assert(f0.den * pow_nat(ad, j) <= u64::MAX && (f0.den * pow_nat(ad, j)) * ad == f0.den * pow_nat(
            ad,
            k,
        )) by (nonlinear_arith)
            requires
                pow_nat(ad, k) == ad * pow_nat(ad, j),
                f0.den * pow_nat(ad, k) <= u64::MAX,
                f0.den >= 1,
                f0.den <= u64::MAX,
                1 <= ad <= u64::MAX,
                pow_nat(ad, j) >= 0,
        ;
        lemma_geometric_schedule(f0, alpha, j);
        assert(f0.den * pow_nat(ad, j) >= 1) by (nonlinear_arith)
            requires
                f0.den >= 1,
                pow_nat(ad, j) >= 1,
        ;
    }
}

/// Law: a factor strictly between 0 and 1 strictly decreases a positive
/// modification factor at every update, as long as the products stay
/// representable — the factor's magnitude shrinks across stages.
pub proof fn lemma_geometric_decreases(f: Ratio, alpha: Ratio)
    requires
        f.wf(),
        alpha.wf(),
        f.num >= 1,
        alpha.num < alpha.den,
        f.num * alpha.num <= u64::MAX,
        f.den * alpha.den <= u64::MAX,
    ensures
        vlt(times_spec(f, alpha), f),
{
    assert((f.num * alpha.num) * f.den < f.num * (f.den * alpha.den)) by (nonlinear_arith)
        requires
            alpha.num < alpha.den,
            f.num >= 1,
            f.den >= 1,
    ;
}

/// A power of a non-negative base is non-negative, and of a positive base
/// positive.
proof fn lemma_pow_nonneg(b: int, e: nat)
    ensures
        b >= 0 ==> pow_nat(b, e) >= 0,
        b >= 1 ==> pow_nat(b, e) >= 1,
    decreases e,
{
    if e > 0 {
        lemma_pow_nonneg(b, (e - 1) as nat);
        assert(b >= 0 && pow_nat(b, (e - 1) as nat) >= 0 ==> b * pow_nat(b, (e - 1) as nat) >= 0)
            by (nonlinear_arith);
        assert(b >= 1 && pow_nat(b, (e - 1) as nat) >= 1 ==> b * pow_nat(b, (e - 1) as nat) >= 1)
            by (nonlinear_arith);
    }
}

/// The Belardinelli-Pereyra schedule: `ln_f = 1/t` for an internal counter
/// `t` advanced on every update; converged when `1/t` falls below `tol`.
///
/// The counter saturates at the largest representable value rather than
/// wrapping; a run reaches any practical tolerance long before that.
#[derive(Clone, Copy, Debug, PartialEq, Eq, Structural)]
pub struct OneOverT {
    /// Internal stage counter.
    t: u64,
    /// The convergence tolerance for `ln_f`.
    pub tol: Ratio,
}

impl OneOverT {
    /// The internal stage counter.
    pub closed spec fn counter(&self) -> u64 {
        self.t
    }

    /// The configured tolerance.
    pub closed spec fn tolerance(&self) -> Ratio {
        self.tol
    }
}

impl Default for OneOverT {
    /// Starts the counter at 1 with a tolerance of one part in 10^8.
    fn default() -> (s: OneOverT)
        ensures
            s.counter() == 1,
            s.tolerance() == (Ratio { num: 1, den: 100_000_000 }),
    {
        OneOverT { t: 1, tol: Ratio { num: 1, den: 100_000_000 } }
    }
}

impl Schedule for OneOverT {
    closed spec fn sched_inv(&self) -> bool {
        &&& self.tol.wf()
        &&& self.t >= 1
    }

    open spec fn update_spec(
        pre: OneOverT,
        post: OneOverT,
        f_pre: Ratio,
        f_post: Ratio,
        converged: bool,
    ) -> bool {
        &&& post.tolerance() == pre.tolerance()
        &&& post.counter() == saturating_inc(pre.counter())
        &&& f_post == (Ratio { num: 1, den: post.counter() })
        &&& converged == vlt(f_post, pre.tolerance())
    }

    fn update(&mut self, ln_f: &mut Ratio) -> (converged: bool)
        ensures
            final(self).tolerance() == old(self).tolerance(),
            final(self).counter() == saturating_inc(old(self).counter()),
            *final(ln_f) == (Ratio { num: 1, den: final(self).counter() }),
            converged == vlt(*final(ln_f), old(self).tolerance()),
    {
        if self.t < u64::MAX {
            self.t = self.t + 1;
        }
        *ln_f = Ratio { num: 1, den: self.t };
        ln_f.lt(&self.tol)
    }
}

/// One step of the schedule's counter: adds one, staying at the largest
/// representable value once there.
pub open spec fn saturating_inc(t: u64) -> u64 {
    if t < u64::MAX {
        (t + 1) as u64
    } else {
        t
    }
}

/// The counter after `k` updates of a fresh schedule.
pub open spec fn one_over_t_counter(k: nat) -> u64
    decreases k,
{
    if k == 0 {
        1
    } else {
        saturating_inc(one_over_t_counter((k - 1) as nat))
    }
}

/// Law: after `k` updates of a fresh schedule the counter is `k + 1`, so by
/// [`OneOverT::update`]'s postcondition the modification factor is exactly
/// `1/(k+1)`, and the `k`-th update reports convergence exactly when
/// `1/(k+1)` is below the tolerance, that is when `tol.den < tol.num * (k+1)`.
pub proof fn lemma_one_over_t_schedule(tol: Ratio, k: nat)
    requires
        tol.wf(),
        k + 1 <= u64::MAX,
    ensures
        one_over_t_counter(k) == k + 1,
        vlt(Ratio { num: 1, den: (k + 1) as u64 }, tol) <==> tol.den < tol.num * (k + 1),
    decreases k,
{
    if k > 0 {
        lemma_one_over_t_schedule(tol, (k - 1) as nat);
    }
}

} // verus!
