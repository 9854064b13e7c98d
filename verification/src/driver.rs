//! The Wang-Landau sampling engine.
//!
//! [`WLDriver`] owns the system state, the visit histogram, the running
//! `ln g` estimate, the modification factor and the step counter, and
//! orchestrates the propose / accept-reject / bookkeeping loop over the
//! caller-supplied collaborators.
//!
//! One [`WLDriver::step`] performs `sweep_len` rounds.  Each round locates
//! the current bin, saves the state, lets the move proposer mutate it,
//! locates the new bin, and accepts or rejects: a move within one bin is
//! accepted unconditionally, any other move is accepted with probability
//! `min(1, exp(ln_g[old] - ln_g[new]))`, decided by the random source.  On
//! rejection the saved state is restored.  Either way exactly one bin — the
//! bin the walker ends the round in — receives one histogram count and one
//! addition of the modification factor to its `ln g` entry.  After the
//! sweep, a flat histogram is reset to zero and the schedule shrinks the
//! modification factor; convergence is whatever the schedule reports.

use vstd::prelude::*;

use crate::hist::{
    lemma_sum_bounds_each, lemma_sum_nonneg, lemma_sum_push, lemma_sum_update, sum_seq,
};
use crate::ratio::{lemma_plus_le, lemma_plus_wf, lemma_vle_trans, plus_iter, plus_spec, vle, Ratio};
use crate::traits::{flat_param_ok, Flatness, Macrospace, Move, RandomSource, Schedule, State};

verus! {

/// Configurable parameters for a Wang-Landau run.
#[derive(Clone, Copy, Debug, PartialEq, Eq, Structural)]
pub struct Params {
    /// Initial modification factor (`ln f`).
    pub ln_f0: Ratio,
    /// Informational target for the final `ln f`; the actual stopping rule
    /// belongs to the schedule's own tolerance.
    pub ln_f_min: Ratio,
    /// Threshold handed to the flatness criterion.
    pub flatness: Ratio,
    /// Move proposals per step; at least 1.
    pub sweep_len: usize,
}

impl Params {
    /// Well-formed parameters: positive denominators, a flatness threshold
    /// within bounds, and at least one proposal per sweep.
    pub open spec fn wf(self) -> bool {
        &&& self.ln_f0.wf()
        &&& self.ln_f_min.wf()
        &&& flat_param_ok(self.flatness)
        &&& self.sweep_len >= 1
    }
}

/// The default parameters: `ln_f0 = 1`, `ln_f_min = 10^-8`,
/// `flatness = 4/5`, one proposal per sweep.
pub open spec fn default_params() -> Params {
    Params {
        ln_f0: Ratio { num: 1, den: 1 },
        ln_f_min: Ratio { num: 1, den: 100_000_000 },
        flatness: Ratio { num: 4, den: 5 },
        sweep_len: 1,
    }
}

impl Default for Params {
    fn default() -> (p: Params)
        ensures
            p == default_params(),
            p.wf(),
    {
        Params {
            ln_f0: Ratio { num: 1, den: 1 },
            ln_f_min: Ratio { num: 1, den: 100_000_000 },
            flatness: Ratio { num: 4, den: 5 },
            sweep_len: 1,
        }
    }
}

/// Generic single-walker Wang-Landau sampling engine.
///
/// Type parameters: the state `S`, the move proposer `Mv`, the
/// state-to-bin mapper `Mp`, the random source `R`, the modification-factor
/// schedule `Sch` and the flatness criterion `F`.
pub struct WLDriver<S, Mv, Mp, R, Sch, F> where
    S: State,
    Mv: Move<S, R>,
    Mp: Macrospace<S>,
    R: RandomSource,
    Sch: Schedule,
    F: Flatness,
 {
    /// Current system state.
    state: S,
    /// Move proposal generator.
    moves: Mv,
    /// Maps states to macroscopic bins.
    mapper: Mp,
    /// Current estimate of `ln g`, one entry per bin.
    ln_g: Vec<Ratio>,
    /// Histogram of visits since the last reset, one count per bin.
    hist: Vec<u64>,
    /// Current modification factor.
    ln_f: Ratio,
    /// Algorithm parameters.
    params: Params,
    /// Random source.
    rng: R,
    /// Modification factor schedule.
    sched: Sch,
    /// Histogram flatness criterion.
    flat: F,
    /// Completed steps.
    step: u64,
    /// Rounds since the last histogram reset; mirrors the histogram sum.
    rounds: Ghost<nat>,
    /// Rounds performed over the whole run; never reset.
    total_rounds: Ghost<nat>,
}

impl<S, Mv, Mp, R, Sch, F> WLDriver<S, Mv, Mp, R, Sch, F> where
    S: State,
    Mv: Move<S, R>,
    Mp: Macrospace<S>,
    R: RandomSource,
    Sch: Schedule,
    F: Flatness,
 {
    /// The `ln g` estimate, one entry per bin.
    pub closed spec fn ln_g_view(&self) -> Seq<Ratio> {
        self.ln_g@
    }

    /// The visit histogram, one count per bin.
    pub closed spec fn hist_view(&self) -> Seq<u64> {
        self.hist@
    }

    /// The current modification factor.
    pub closed spec fn ln_f_view(&self) -> Ratio {
        self.ln_f
    }

    /// The number of completed steps.
    pub closed spec fn step_view(&self) -> u64 {
        self.step
    }

    /// The current system state.
    pub closed spec fn state_view(&self) -> S {
        self.state
    }

    /// The configured parameters.
    pub closed spec fn params_view(&self) -> Params {
        self.params
    }

    /// The number of bins the mapper classifies states into.
    pub closed spec fn bins_view(&self) -> nat {
        self.mapper.bin_count()
    }

    /// Rounds performed since the last histogram reset.
    pub closed spec fn rounds_view(&self) -> nat {
        self.rounds@
    }

    /// Rounds performed since construction; never reset.
    pub closed spec fn total_rounds_view(&self) -> nat {
        self.total_rounds@
    }

    /// The configured flatness criterion.
    pub closed spec fn flat_view(&self) -> F {
        self.flat
    }

    /// The configured schedule.
    pub closed spec fn sched_view(&self) -> Sch {
        self.sched
    }

    /// The histogram as it stands right after a sweep described by the
    /// per-bin visit counts `v`, before any reset.
    pub open spec fn swept_hist(pre: Self, v: Seq<u64>) -> Seq<u64> {
        Seq::new(pre.hist_view().len(), |i: int| (pre.hist_view()[i] + v[i]) as u64)
    }

    /// The engine invariant: estimate and histogram are sized to the bin
    /// count, all quantities are well formed, and the histogram sum equals
    /// the number of rounds since the last reset.
    pub closed spec fn inv(&self) -> bool {
        &&& self.ln_g@.len() == self.mapper.bin_count()
        &&& self.hist@.len() == self.mapper.bin_count()
        &&& 1 <= self.mapper.bin_count() <= u32::MAX
        &&& self.params.wf()
        &&& self.ln_f.wf()
        &&& (forall|i: int| 0 <= i < self.ln_g@.len() ==> self.ln_g@[i].wf())
        &&& sum_seq(self.hist@) == self.rounds@
        &&& self.sched.sched_inv()
    }

    /// How one step's bookkeeping relates the engine before and after: a
    /// per-bin visit count `v` summing to `sweep_len` describes the sweep;
    /// each bin's `ln g` entry received exactly its visit count's worth of
    /// additions of the modification factor; and the criterion's verdict on
    /// the swept histogram decides what follows — not flat, and the
    /// histogram grew by exactly `v` with the factor unchanged and the step
    /// counter advanced, or flat, and the histogram was reset to all zeros,
    /// the schedule consulted, and the step counter advanced only when
    /// convergence was not reported.
    pub open spec fn step_relation(v: Seq<u64>, pre: Self, post: Self, converged: bool) -> bool {
        &&& v.len() == pre.hist_view().len()
        &&& sum_seq(v) == pre.params_view().sweep_len
        &&& (forall|i: int|
            0 <= i < v.len() ==> post.ln_g_view()[i] == plus_iter(
                pre.ln_g_view()[i],
                pre.ln_f_view(),
                v[i] as nat,
            ))
        &&& ({
            ||| {
                &&& !pre.flat_view().flat_spec(Self::swept_hist(pre, v), pre.params_view().flatness)
                &&& post.sched_view() == pre.sched_view()
                &&& (forall|i: int|
                    0 <= i < v.len() ==> post.hist_view()[i] == pre.hist_view()[i] + v[i])
                &&& post.ln_f_view() == pre.ln_f_view()
                &&& post.rounds_view() == pre.rounds_view() + pre.params_view().sweep_len
                &&& post.step_view() == pre.step_view() + 1
                &&& !converged
            }
            ||| {
                &&& pre.flat_view().flat_spec(Self::swept_hist(pre, v), pre.params_view().flatness)
                &&& Sch::update_spec(
                    pre.sched_view(),
                    post.sched_view(),
                    pre.ln_f_view(),
                    post.ln_f_view(),
                    converged,
                )
                &&& (forall|i: int| 0 <= i < v.len() ==> post.hist_view()[i] == 0)
                &&& post.rounds_view() == 0
                &&& (converged ==> post.step_view() == pre.step_view())
                &&& (!converged ==> post.step_view() == pre.step_view() + 1)
            }
        })
    }

    /// How a bounded run relates the engine before and after: some number
    /// of steps `j` up to the bound was executed, each of `sweep_len`
    /// rounds.  Either the bound was exhausted, with the step counter
    /// advanced by `j`, or the `j`-th step reported convergence: the run
    /// stopped there, with the step counter advanced only by the `j - 1`
    /// earlier steps and the histogram freshly reset.
    pub open spec fn run_relation(j: int, pre: Self, post: Self, max_steps: u64) -> bool {
        &&& 0 <= j <= max_steps
        &&& post.total_rounds_view() == pre.total_rounds_view() + j
            * pre.params_view().sweep_len
        &&& ({
            ||| (j == max_steps && post.step_view() == pre.step_view() + j)
            ||| (1 <= j && post.step_view() == pre.step_view() + j - 1
                && post.rounds_view() == 0 && sum_seq(post.hist_view()) == 0)
        })
    }

    /// Builds an engine: `ln g` and the histogram are allocated one zero
    /// entry per bin, the modification factor starts at `ln_f0`, and the
    /// step counter at zero.
    pub fn new(state: S, moves: Mv, mapper: Mp, params: Params, sched: Sch, flat: F, rng: R) -> (
        drv: Self)
        requires
            1 <= mapper.bin_count() <= u32::MAX,
            params.wf(),
            sched.sched_inv(),
        ensures
            drv.inv(),
            drv.bins_view() == mapper.bin_count(),
            drv.params_view() == params,
            drv.ln_f_view() == params.ln_f0,
            drv.step_view() == 0,
            drv.state_view() == state,
            drv.rounds_view() == 0,
            drv.total_rounds_view() == 0,
            drv.hist_view() == Seq::new(mapper.bin_count(), |i: int| 0u64),
            drv.ln_g_view() == Seq::new(mapper.bin_count(), |i: int| (Ratio { num: 0, den: 1 })),
    {
        let n: usize = mapper.bins().len();
        let mut ln_g: Vec<Ratio> = Vec::new();
        let mut hist: Vec<u64> = Vec::new();
        let mut i: usize = 0;
        while i < n
            invariant
                0 <= i <= n,
                ln_g@.len() == i,
                hist@.len() == i,
                forall|j: int| 0 <= j < i ==> ln_g@[j] == (Ratio { num: 0, den: 1 }),
                forall|j: int| 0 <= j < i ==> hist@[j] == 0u64,
                sum_seq(hist@) == 0,
            decreases n - i,
        {
            proof {
                lemma_sum_push(hist@, 0u64);
            }
            ln_g.push(Ratio { num: 0, den: 1 });
            hist.push(0);
            i = i + 1;
        }
        proof {
            assert(ln_g@ =~= Seq::new(mapper.bin_count(), |i: int| (Ratio { num: 0, den: 1 })));
            assert(hist@ =~= Seq::new(mapper.bin_count(), |i: int| 0u64));
        }
        WLDriver {
            state,
            moves,
            mapper,
            ln_g,
            hist,
            ln_f: params.ln_f0,
            params,
            rng,
            sched,
            flat,
            step: 0,
            rounds: Ghost(0),
            total_rounds: Ghost(0),
        }
    }

    /// One Wang-Landau step: `sweep_len` move-acceptance rounds, then a
    /// flatness check with a possible histogram reset and schedule update.
    ///
    /// The postcondition pins the bookkeeping exactly: some per-bin visit
    /// count `v` summing to `sweep_len` describes the sweep; each bin's
    /// `ln g` entry received its visit count's worth of additions of the
    /// modification factor, and either the histogram grew by exactly `v`
    /// (no reset; the factor and the convergence flag then unchanged and
    /// false) or it was reset to all zeros after a flatness event.  The
    /// step counter advances except on the step that reports convergence.
    #[verifier::loop_isolation(false)]
    pub fn step(&mut self) -> (converged: bool)
        requires
            old(self).inv(),
            sum_seq(old(self).hist_view()) + old(self).params_view().sweep_len <= u32::MAX,
            old(self).step_view() < u64::MAX,
        ensures
            final(self).inv(),
            final(self).bins_view() == old(self).bins_view(),
            final(self).params_view() == old(self).params_view(),
            final(self).hist_view().len() == old(self).hist_view().len(),
            final(self).ln_g_view().len() == old(self).ln_g_view().len(),
            forall|i: int|
                0 <= i < old(self).ln_g_view().len() ==> vle(
                    old(self).ln_g_view()[i],
                    final(self).ln_g_view()[i],
                ),
            sum_seq(final(self).hist_view()) == sum_seq(old(self).hist_view()) + old(
                self,
            ).params_view().sweep_len || sum_seq(final(self).hist_view()) == 0,
            final(self).total_rounds_view() == old(self).total_rounds_view() + old(
                self,
            ).params_view().sweep_len,
            converged ==> final(self).step_view() == old(self).step_view()
                && final(self).rounds_view() == 0 && sum_seq(final(self).hist_view()) == 0,
            !converged ==> final(self).step_view() == old(self).step_view() + 1,
            exists|v: Seq<u64>| #[trigger] Self::step_relation(v, *old(self), *final(self), converged),
    {
        let ghost orig = *self;
        let ghost n = self.ln_g@.len() as int;
        let sweep: usize = self.params.sweep_len;
        let ghost mut visits: Seq<u64> = Seq::new(n as nat, |i: int| 0u64);
        proof {
            lemma_zero_visits(visits);
        }
        let mut r: usize = 0;
        while r < sweep
            invariant
                0 <= r <= sweep,
                self.ln_g@.len() == n,
                self.hist@.len() == n,
                self.mapper == orig.mapper,
                self.params == orig.params,
                self.sched == orig.sched,
                self.flat == orig.flat,
                self.ln_f == orig.ln_f,
                self.step == orig.step,
                self.ln_f.wf(),
                forall|i: int| 0 <= i < n ==> self.ln_g@[i].wf(),
                visits.len() == n,
                sum_seq(visits) == r,
                forall|i: int| 0 <= i < n ==> self.hist@[i] == orig.hist@[i] + visits[i],
                forall|i: int|
                    0 <= i < n ==> self.ln_g@[i] == plus_iter(
                        orig.ln_g@[i],
                        orig.ln_f,
                        visits[i] as nat,
                    ),
                forall|i: int| 0 <= i < n ==> vle(orig.ln_g@[i], self.ln_g@[i]),
                sum_seq(self.hist@) == sum_seq(orig.hist@) + r,
                self.rounds@ == sum_seq(self.hist@),
                self.total_rounds@ == orig.total_rounds@ + r,
            decreases sweep - r,
        {
            let bin_old: usize = self.mapper.locate(&self.state);
            let prev_state: S = self.state.duplicate();
            self.moves.propose(&mut self.state, &mut self.rng);
            let bin_new: usize = self.mapper.locate(&self.state);

            let accept: bool = if bin_new == bin_old {
                true
            } else {
                self.rng.accept(&self.ln_g[bin_old], &self.ln_g[bin_new])
            };
            let bin_final: usize = if accept {
                bin_new
            } else {
                self.state = prev_state;
                bin_old
            };

            let entry: Ratio = self.ln_g[bin_final];
            proof {
                lemma_plus_wf(entry, self.ln_f);
                lemma_plus_le(entry, self.ln_f);
                lemma_vle_trans(orig.ln_g@[bin_final as int], entry, plus_spec(entry, self.ln_f));
                lemma_sum_bounds_each(self.hist@, bin_final as int);
                lemma_sum_bounds_each(visits, bin_final as int);
                lemma_sum_nonneg(orig.hist@);
            }
            let updated: Ratio = entry.plus(&self.ln_f);
            self.ln_g[bin_final] = updated;
            let count: u64 = self.hist[bin_final];
            proof {
                lemma_sum_update(self.hist@, bin_final as int, (count + 1) as u64);
                lemma_sum_update(visits, bin_final as int, (visits[bin_final as int] + 1) as u64);
            }
            self.hist[bin_final] = count + 1;
            proof {
                visits = visits.update(
                    bin_final as int,
                    (visits[bin_final as int] + 1) as u64,
                );
            }
            self.rounds = Ghost(self.rounds@ + 1);
            self.total_rounds = Ghost(self.total_rounds@ + 1);
            r = r + 1;
        }

        proof {
            assert(self.hist@ =~= Self::swept_hist(orig, visits));
        }
        let flat_now: bool = self.flat.is_flat(self.hist.as_slice(), &self.params.flatness);
        if flat_now {
            let ghost swept = *self;
            let len: usize = self.hist.len();
            let mut i: usize = 0;
            while i < len
                invariant
                    0 <= i <= len,
                    len == n,
                    self.hist@.len() == n,
                    forall|j: int| 0 <= j < i ==> self.hist@[j] == 0u64,
                    self.ln_g@ == swept.ln_g@,
                    self.ln_f == swept.ln_f,
                    self.total_rounds == swept.total_rounds,
                    self.mapper == swept.mapper,
                    self.params == swept.params,
                    self.sched == swept.sched,
                    self.flat == swept.flat,
                    self.step == swept.step,
                decreases len - i,
            {
                self.hist[i] = 0;
                i = i + 1;
            }
            proof {
                lemma_zero_visits(self.hist@);
            }
            self.rounds = Ghost(0);
            let conv: bool = self.sched.update(&mut self.ln_f);
            if conv {
                proof {
                    assert(Self::step_relation(visits, orig, *self, true));
                }
                return true;
            }
        }
        self.step = self.step + 1;
        proof {
            assert(Self::step_relation(visits, orig, *self, false));
        }
        false
    }

    /// Runs up to `max_steps` steps, stopping early the first time a step
    /// reports convergence.
    #[verifier::loop_isolation(false)]
    pub fn run(&mut self, max_steps: u64)
        requires
            old(self).inv(),
            sum_seq(old(self).hist_view()) + max_steps * old(self).params_view().sweep_len
                <= u32::MAX,
            old(self).step_view() + max_steps <= u64::MAX,
        ensures
            final(self).inv(),
            final(self).bins_view() == old(self).bins_view(),
            final(self).params_view() == old(self).params_view(),
            final(self).hist_view().len() == old(self).hist_view().len(),
            final(self).ln_g_view().len() == old(self).ln_g_view().len(),
            forall|i: int|
                0 <= i < old(self).ln_g_view().len() ==> vle(
                    old(self).ln_g_view()[i],
                    final(self).ln_g_view()[i],
                ),
            final(self).step_view() <= old(self).step_view() + max_steps,
            exists|j: int| #[trigger] Self::run_relation(j, *old(self), *final(self), max_steps),
    {
        let ghost orig = *self;
        let mut k: u64 = 0;
        while k < max_steps
            invariant
                0 <= k <= max_steps,
                self.inv(),
                self.bins_view() == orig.bins_view(),
                self.params_view() == orig.params_view(),
                self.hist_view().len() == orig.hist_view().len(),
                self.ln_g_view().len() == orig.ln_g_view().len(),
                sum_seq(self.hist_view()) <= sum_seq(orig.hist_view()) + k
                    * orig.params_view().sweep_len,
                self.step_view() == orig.step_view() + k,
                self.total_rounds_view() == orig.total_rounds_view() + k
                    * orig.params_view().sweep_len,
                orig.step_view() + max_steps <= u64::MAX,
                sum_seq(orig.hist_view()) + max_steps * orig.params_view().sweep_len <= u32::MAX,
                forall|i: int|
                    0 <= i < orig.ln_g_view().len() ==> vle(
                        orig.ln_g_view()[i],
                        self.ln_g_view()[i],
                    ),
            decreases max_steps - k,
        {
            proof {
                lemma_sum_nonneg(self.hist_view());
                assert((k + 1) * orig.params_view().sweep_len <= max_steps
                    * orig.params_view().sweep_len && k * orig.params_view().sweep_len
                    + orig.params_view().sweep_len == (k + 1) * orig.params_view().sweep_len)
                    by (nonlinear_arith)
                    requires
                        0 <= k < max_steps,
                        orig.params_view().sweep_len >= 0,
                ;
            }
            let ghost prev = *self;
            let conv: bool = self.step();
            proof {
                assert forall|i: int| 0 <= i < orig.ln_g_view().len() implies vle(
                    orig.ln_g_view()[i],
                    self.ln_g_view()[i],
                ) by {
                    lemma_vle_trans(
                        orig.ln_g_view()[i],
                        prev.ln_g_view()[i],
                        self.ln_g_view()[i],
                    );
                }
            }
            if conv {
                proof {
                    assert(Self::run_relation(k + 1, orig, *self, max_steps));
                }
                return ;
            }
            k = k + 1;
        }
        proof {
            assert(Self::run_relation(max_steps as int, orig, *self, max_steps));
        }
    }

    /// Law: the histogram always accounts for every round exactly once —
    /// the sum of its counts equals the number of rounds performed since
    /// the last reset.
    pub proof fn lemma_rounds_account(&self)
        requires
            self.inv(),
        ensures
            sum_seq(self.hist_view()) == self.rounds_view(),
    {
    }

    /// The current `ln g` estimate, one entry per bin; meaningful only up
    /// to a shared additive constant.
    pub fn ln_g(&self) -> (r: &Vec<Ratio>)
        ensures
            r@ == self.ln_g_view(),
    {
        &self.ln_g
    }

    /// The current visit histogram, one count per bin.
    pub fn histogram(&self) -> (r: &Vec<u64>)
        ensures
            r@ == self.hist_view(),
    {
        &self.hist
    }

    /// The current modification factor.
    pub fn ln_f(&self) -> (r: Ratio)
        ensures
            r == self.ln_f_view(),
    {
        self.ln_f
    }

    /// The number of completed Wang-Landau steps.
    pub fn step_count(&self) -> (r: u64)
        ensures
            r == self.step_view(),
    {
        self.step
    }

    /// The current system state.
    pub fn state(&self) -> (r: &S)
        ensures
            *r == self.state_view(),
    {
        &self.state
    }
}

/// A freshly built all-zero visit sequence sums to zero.
proof fn lemma_zero_visits(s: Seq<u64>)
    requires
        forall|i: int| 0 <= i < s.len() ==> s[i] == 0u64,
    ensures
        sum_seq(s) == 0,
    decreases s.len(),
{
    if s.len() > 0 {
        lemma_zero_visits(s.drop_last());
    }
}

} // verus!
