//! Wang-Landau on a six-sided die: six equally probable states, so the
//! spread of the `ln g` estimates should stay small.

use rand::Rng;

use wanglandau::driver::{Params, WLDriver};
use wanglandau::flatness::Fraction;
use wanglandau::ratio::Ratio;
use wanglandau::rng::{seeded, Rng64};
use wanglandau::schedule::Geometric;
use wanglandau::traits::{Macrospace, Move, RandomSource, State};

/// A system representing a six-sided die with values 1-6.
#[derive(Clone)]
struct Dice(u8);

impl State for Dice {
    fn duplicate(&self) -> Dice {
        self.clone()
    }
}

/// A random source backed by PCG-64.
struct WlRng {
    inner: Rng64,
}

fn ratio_f64(r: &Ratio) -> f64 {
    r.num as f64 / r.den as f64
}

impl RandomSource for WlRng {
    fn accept(&mut self, ln_g_old: &Ratio, ln_g_new: &Ratio) -> bool {
        let delta: f64 = ratio_f64(ln_g_old) - ratio_f64(ln_g_new);
        self.inner.random::<f64>() < delta.exp()
    }
}

/// A move that randomly rolls the die to a new value.
struct Roll;

impl Move<Dice, WlRng> for Roll {
    fn propose(&mut self, s: &mut Dice, rng: &mut WlRng) {
        s.0 = rng.inner.random_range(1..=6);
    }
}

/// Maps die values to bins (0-5 for values 1-6).
struct Face;

impl Macrospace<Dice> for Face {
    fn bins(&self) -> &[usize] {
        &[0, 1, 2, 3, 4, 5]
    }

    fn locate(&self, s: &Dice) -> usize {
        (s.0 - 1) as usize
    }
}

/// Since all six faces are equally probable, all `ln g` values should come
/// out approximately equal.
#[test]
fn dice_entropy_constant() {
    let params = Params { sweep_len: 1, ..Default::default() };

    let mut drv = WLDriver::new(
        Dice(1),
        Roll,
        Face,
        params,
        Geometric {
            alpha: Ratio { num: 1, den: 2 },
            tol: Ratio { num: 1, den: 1_000_000_000 },
        },
        Fraction,
        WlRng { inner: seeded(2025) },
    );

    drv.run(2_000_000);

    let ln_g = drv.ln_g();
    let mut lo: f64 = f64::INFINITY;
    let mut hi: f64 = f64::NEG_INFINITY;
    for g in ln_g.iter() {
        let x: f64 = ratio_f64(g);
        if x < lo {
            lo = x;
        }
        if x > hi {
            hi = x;
        }
    }

    assert!((hi - lo) < 2.0, "Spread of ln(g) values too large: {}", hi - lo);
}
