//! Engine bookkeeping and determinism on concrete models.

use rand::Rng;
use rand::RngCore;

use wanglandau::driver::{Params, WLDriver};
use wanglandau::flatness::{Fraction, RMS};
use wanglandau::ratio::Ratio;
use wanglandau::rng::{seeded, Rng64};
use wanglandau::schedule::Geometric;
use wanglandau::traits::{Macrospace, Move, RandomSource, State};

#[derive(Clone)]
struct Marker(u8);

impl State for Marker {
    fn duplicate(&self) -> Marker {
        self.clone()
    }
}

/// A random source that must never be consulted: every self-loop move is
/// accepted unconditionally, without a draw.
struct NoDraw;

impl RandomSource for NoDraw {
    fn accept(&mut self, _ln_g_old: &Ratio, _ln_g_new: &Ratio) -> bool {
        panic!("the random source was consulted for a self-loop move");
    }
}

/// A move that leaves the state alone, so every round is a self-loop.
struct Stay;

impl Move<Marker, NoDraw> for Stay {
    fn propose(&mut self, _s: &mut Marker, _rng: &mut NoDraw) {}
}

/// Two bins; the marker stays in bin 0 forever.
struct TwoBins;

impl Macrospace<Marker> for TwoBins {
    fn bins(&self) -> &[usize] {
        &[0, 1]
    }

    fn locate(&self, s: &Marker) -> usize {
        s.0 as usize
    }
}

/// For a model where every move is a self-loop, acceptance is unconditional
/// (the panicking random source proves no draw happens), the histogram
/// counts visits exactly — one bookkeeping update per round — and each
/// visit grows the visited bin's `ln g` entry by exactly the modification
/// factor.
#[test]
fn self_loop_bookkeeping_is_exact() {
    let params = Params {
        ln_f0: Ratio { num: 1, den: 4 },
        flatness: Ratio { num: 1, den: 1 },
        sweep_len: 5,
        ..Default::default()
    };
    let mut drv = WLDriver::new(
        Marker(0),
        Stay,
        TwoBins,
        params,
        Geometric {
            alpha: Ratio { num: 1, den: 2 },
            tol: Ratio { num: 1, den: 100_000_000 },
        },
        Fraction,
        NoDraw,
    );

    // Bin 1 is never visited, so the histogram is never flat and no reset
    // happens: after k steps of 5 rounds, bin 0 holds 5 k counts and
    // ln_g[0] holds exactly 5 k times the factor 1/4.
    for k in 1u64..=10u64 {
        let converged: bool = drv.step();
        assert!(!converged);
        assert_eq!(drv.step_count(), k);
        assert_eq!(drv.histogram()[0], 5 * k);
        assert_eq!(drv.histogram()[1], 0);
        assert_eq!(drv.histogram().iter().sum::<u64>(), 5 * k);
        assert_eq!(*drv.ln_g(), vec![Ratio { num: 5 * k, den: 4 }, Ratio { num: 0, den: 1 }]);
        assert_eq!(drv.ln_f(), Ratio { num: 1, den: 4 });
    }
}

#[derive(Clone)]
struct Coin(bool);

impl State for Coin {
    fn duplicate(&self) -> Coin {
        self.clone()
    }
}

struct WlRng {
    inner: Rng64,
}

impl RandomSource for WlRng {
    fn accept(&mut self, ln_g_old: &Ratio, ln_g_new: &Ratio) -> bool {
        let delta: f64 = (ln_g_old.num as f64 / ln_g_old.den as f64) - (ln_g_new.num as f64
            / ln_g_new.den as f64);
        self.inner.random::<f64>() < delta.exp()
    }
}

struct Flip;

impl Move<Coin, WlRng> for Flip {
    fn propose(&mut self, s: &mut Coin, rng: &mut WlRng) {
        s.0 = rng.inner.random();
    }
}

struct CoinBins;

impl Macrospace<Coin> for CoinBins {
    fn bins(&self) -> &[usize] {
        &[0, 1]
    }

    fn locate(&self, s: &Coin) -> usize {
        if s.0 {
            1
        } else {
            0
        }
    }
}

fn coin_driver(seed: u64) -> WLDriver<Coin, Flip, CoinBins, WlRng, Geometric, Fraction> {
    WLDriver::new(
        Coin(false),
        Flip,
        CoinBins,
        Params { sweep_len: 3, ..Default::default() },
        Geometric {
            alpha: Ratio { num: 1, den: 2 },
            tol: Ratio { num: 1, den: 100_000_000 },
        },
        Fraction,
        WlRng { inner: seeded(seed) },
    )
}

/// Two engines built from identical parameters, strategies and seeds follow
/// bit-identical trajectories.
#[test]
fn identical_seeds_give_identical_trajectories() {
    let mut a = coin_driver(99);
    let mut b = coin_driver(99);
    for _ in 0..5000 {
        let ca: bool = a.step();
        let cb: bool = b.step();
        assert_eq!(ca, cb);
    }
    assert_eq!(*a.ln_g(), *b.ln_g());
    assert_eq!(*a.histogram(), *b.histogram());
    assert_eq!(a.ln_f(), b.ln_f());
    assert_eq!(a.step_count(), b.step_count());
    assert_eq!(a.state().0, b.state().0);
}

/// The histogram sum advances by exactly `sweep_len` per step until a
/// flatness event resets it to zero.
#[test]
fn histogram_sum_counts_rounds() {
    let mut drv = coin_driver(7);
    let mut expected: u64 = 0;
    let mut saw_reset: bool = false;
    for _ in 0..2000 {
        drv.step();
        let total: u64 = drv.histogram().iter().sum::<u64>();
        if total == 0 {
            saw_reset = true;
            expected = 0;
        } else {
            assert_eq!(total, expected + 3, "one bookkeeping update per round");
            expected = total;
        }
    }
    assert!(saw_reset, "a fair coin should reach a flat histogram quickly");
}

/// The RMS criterion also drives stages through the engine: a fair coin
/// reaches a flat histogram, so the factor shrinks below its initial value.
#[test]
fn rms_criterion_drives_stages() {
    let mut drv = WLDriver::new(
        Coin(false),
        Flip,
        CoinBins,
        Params { flatness: Ratio { num: 1, den: 2 }, ..Default::default() },
        Geometric {
            alpha: Ratio { num: 1, den: 2 },
            tol: Ratio { num: 1, den: 100_000_000 },
        },
        RMS,
        WlRng { inner: seeded(11) },
    );
    drv.run(5000);
    let f: Ratio = drv.ln_f();
    // ln_f started at 1 and can only have moved by halving.
    assert!(
        (f.num as u128) * 1 < (f.den as u128),
        "no stage ever completed under the RMS criterion"
    );
}

/// Equal seeds give equal streams; different seeds diverge.
#[test]
fn seeding_is_deterministic() {
    let mut a = seeded(5);
    let mut b = seeded(5);
    let mut c = seeded(6);
    let first_a: u64 = a.next_u64();
    assert_eq!(first_a, b.next_u64());
    assert_ne!(first_a, c.next_u64());
    assert_eq!(a.next_u64(), b.next_u64());
}
