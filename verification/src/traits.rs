//! Core abstractions for Wang-Landau sampling.
//!
//! The driver is generic over five caller-supplied collaborators:
//!
//! - [`State`]: a microscopic configuration of the system
//! - [`Move`]: a Monte Carlo move proposal that mutates a state in place
//! - [`Macrospace`]: the map from microscopic states to macroscopic bins
//! - [`RandomSource`]: the random source that decides Wang-Landau acceptance
//! - [`Schedule`]: how the modification factor decays over time
//! - [`Flatness`]: when a visit histogram counts as flat
//!
//! Implementations of these traits define the physical model and the
//! convergence strategy; the driver itself is model-agnostic.

use vstd::prelude::*;

use crate::hist::sum_seq;
use crate::ratio::{vle, Ratio};

verus! {

/// A microscopic configuration of the system being simulated.
///
/// The algorithm saves a snapshot of the state before each move proposal and
/// restores it when the move is rejected, so a state must support an
/// independent, faithful copy.
pub trait State: Sized {
    /// Returns an independent copy equal to `self`.
    fn duplicate(&self) -> (copy: Self)
        ensures
            copy == *self,
    ;
}

/// A Monte Carlo move proposal.
///
/// Implementations mutate a state in place, typically drawing from the random
/// source; acceptance or rejection of the move is the driver's business, and
/// any resulting state is acceptable here.
pub trait Move<S: State, R: RandomSource> {
    /// Proposes a move by mutating `state` in place using `rng`.
    fn propose(&mut self, state: &mut S, rng: &mut R);
}

/// The map from microscopic states to macroscopic bins (typically energy
/// levels).
///
/// The set of bins is fixed for the lifetime of the mapper, and every state
/// must map into it: the algorithm's bookkeeping is indexed by bin, so a bin
/// index out of range is a contract violation with no recovery.
pub trait Macrospace<S: State> {
    /// The number of bins the mapper classifies states into.  Implementors
    /// outside the crate inherit the default, an unspecified value: for
    /// them the binding fact is the runtime one, that `locate` stays below
    /// `bins().len()` — the driver's bookkeeping indexes by bin, so a bin
    /// out of range faults fast rather than corrupt the estimate.
    open spec fn bin_count(&self) -> nat {
        arbitrary()
    }

    /// Returns the fixed list of all bin identifiers.
    fn bins(&self) -> (r: &[usize])
        ensures
            r@.len() == self.bin_count(),
    ;

    /// Maps a state to the index of its bin.
    fn locate(&self, state: &S) -> (b: usize)
        ensures
            b < self.bin_count(),
    ;
}

/// A seedable source of randomness that performs the Wang-Landau acceptance
/// test.
///
/// One call stands for drawing a uniform real `u` in `[0,1)` and accepting
/// iff `u < exp(ln_g_old - ln_g_new)`; the comparison against the
/// transcendental exponential is real-valued work that belongs to the random
/// source, not to the exact-rational driver.  Whenever
/// `ln_g_old >= ln_g_new`, the exponential is at least 1 and every draw is
/// below it, so acceptance is certain; nothing else is promised of a random
/// outcome.
pub trait RandomSource {
    /// Draws once and decides acceptance of a move from a bin with estimate
    /// `ln_g_old` to a bin with estimate `ln_g_new`.
    fn accept(&mut self, ln_g_old: &Ratio, ln_g_new: &Ratio) -> (acc: bool)
        requires
            ln_g_old.wf(),
            ln_g_new.wf(),
        ensures
            vle(*ln_g_new, *ln_g_old) ==> acc,
    ;
}

/// How the modification factor (`ln f`) decays during the run.
///
/// The driver calls [`Schedule::update`] whenever the histogram is judged
/// flat; the schedule lowers `ln_f` and reports whether the run has
/// converged.
pub trait Schedule: Sized {
    /// Internal consistency of the schedule's own configuration; trivial by
    /// default, strengthened by schedules that need it.
    open spec fn sched_inv(&self) -> bool {
        true
    }

    /// How one update may transform the schedule's state and the factor,
    /// and when it reports convergence.  Implementors outside the crate
    /// inherit the default, an unspecified relation; the crate's schedules
    /// pin it down exactly, and the driver's contract speaks of an update
    /// through this relation.
    open spec fn update_spec(
        pre: Self,
        post: Self,
        f_pre: Ratio,
        f_post: Ratio,
        converged: bool,
    ) -> bool {
        arbitrary()
    }

    /// Lowers `ln_f` one stage and returns true when the run has converged.
    fn update(&mut self, ln_f: &mut Ratio) -> (converged: bool)
        requires
            old(self).sched_inv(),
            old(ln_f).wf(),
        ensures
            final(self).sched_inv(),
            final(ln_f).wf(),
            Self::update_spec(*old(self), *final(self), *old(ln_f), *final(ln_f), converged),
    ;
}

/// A criterion for histogram flatness.
///
/// The run proceeds in stages; a stage ends when the visit histogram is
/// "flat enough", at which point the modification factor shrinks.  The
/// bounds on the histogram and on the precision of the flatness parameter
/// keep every criterion's exact integer arithmetic within 128 bits.
pub trait Flatness {
    /// What the criterion decides, as a pure predicate of the histogram
    /// and the parameter.  Implementors outside the crate inherit the
    /// default, an unspecified predicate; a criterion is a pure function
    /// of its inputs, and the driver's contract speaks of it through this
    /// predicate.
    open spec fn flat_spec(&self, hist: Seq<u64>, flat: Ratio) -> bool {
        arbitrary()
    }

    /// Decides whether `hist` is flat under the parameter `flat`
    /// (typically between 0 and 1; larger is stricter).
    fn is_flat(&self, hist: &[u64], flat: &Ratio) -> (r: bool)
        requires
            flat_param_ok(*flat),
            sum_seq(hist@) <= u32::MAX,
            hist@.len() <= u32::MAX,
        ensures
            r == self.flat_spec(hist@, *flat),
    ;
}

/// Bounds on the flatness parameter: a fraction of the mean in `[0, 1]`,
/// with enough precision for any practical threshold while keeping the
/// criteria's exact arithmetic within 128 bits.
pub open spec fn flat_param_ok(flat: Ratio) -> bool {
    &&& flat.wf()
    &&& flat.num <= flat.den
    &&& flat.den <= 0xFFFF
}

} // verus!
