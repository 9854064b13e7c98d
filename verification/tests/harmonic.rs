//! Wang-Landau on a one-dimensional harmonic oscillator with 100 energy
//! bins: a continuous state space, exercising convergence of the
//! modification factor below a tolerance.

use rand::Rng;

use wanglandau::driver::{Params, WLDriver};
use wanglandau::flatness::Fraction;
use wanglandau::ratio::Ratio;
use wanglandau::rng::{seeded, Rng64};
use wanglandau::schedule::Geometric;
use wanglandau::traits::{Macrospace, Move, RandomSource, State};

/// A one-dimensional harmonic oscillator with position as the state.
#[derive(Clone)]
struct Harmonic(f64);

impl State for Harmonic {
    fn duplicate(&self) -> Harmonic {
        self.clone()
    }
}

/// A random source backed by PCG-64.
struct WlRng {
    inner: Rng64,
}

fn ratio_f64(r: &Ratio) -> f64 {
    r.num as f64 / r.den as f64
}

impl RandomSource for WlRng {
    fn accept(&mut self, ln_g_old: &Ratio, ln_g_new: &Ratio) -> bool {
        let delta: f64 = ratio_f64(ln_g_old) - ratio_f64(ln_g_new);
        self.inner.random::<f64>() < delta.exp()
    }
}

/// A move that randomly displaces the oscillator position by up to 1/2.
struct Displace;

impl Move<Harmonic, WlRng> for Displace {
    fn propose(&mut self, s: &mut Harmonic, rng: &mut WlRng) {
        s.0 += rng.inner.random_range(-0.5..=0.5);
    }
}

/// Maps oscillator states to energy bins of width 0.1 for `0 <= E < 10`,
/// clamping larger energies to the last bin.
struct EnergyBins;

const BINS: &[usize] = &[
    0, 1, 2, 3, 4, 5, 6, 7, 8, 9, 10, 11, 12, 13, 14, 15, 16, 17, 18, 19, 20, 21, 22, 23, 24, 25,
    26, 27, 28, 29, 30, 31, 32, 33, 34, 35, 36, 37, 38, 39, 40, 41, 42, 43, 44, 45, 46, 47, 48,
    49, 50, 51, 52, 53, 54, 55, 56, 57, 58, 59, 60, 61, 62, 63, 64, 65, 66, 67, 68, 69, 70, 71,
    72, 73, 74, 75, 76, 77, 78, 79, 80, 81, 82, 83, 84, 85, 86, 87, 88, 89, 90, 91, 92, 93, 94,
    95, 96, 97, 98, 99,
];

impl Macrospace<Harmonic> for EnergyBins {
    fn bins(&self) -> &[usize] {
        BINS
    }

    fn locate(&self, s: &Harmonic) -> usize {
        let e: f64 = 0.5 * s.0 * s.0;
        let idx: usize = (e / 0.1).floor() as usize;
        idx.min(99)
    }
}

/// Running long enough drives the modification factor below the schedule's
/// tolerance, certifying convergence.
#[test]
fn harmonic_converges() {
    let ln_f_tol = Ratio { num: 1, den: 1000 };

    let mut drv = WLDriver::new(
        Harmonic(0.0),
        Displace,
        EnergyBins,
        Params { ..Default::default() },
        Geometric { alpha: Ratio { num: 1, den: 2 }, tol: ln_f_tol },
        Fraction,
        WlRng { inner: seeded(7) },
    );

    drv.run(100_000_000);

    let f: Ratio = drv.ln_f();
    assert!(
        (f.num as u128) * (ln_f_tol.den as u128) < (ln_f_tol.num as u128) * (f.den as u128),
        "Algorithm failed to converge: ln_f = {}",
        ratio_f64(&f)
    );
}
