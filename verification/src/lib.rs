//! Wang-Landau Monte Carlo sampling.
//!
//! A model-agnostic, single-walker implementation of the Wang-Landau
//! algorithm: for a state space partitioned into a fixed set of macroscopic
//! bins, it estimates the logarithm of the number of microstates per bin by
//! biasing a random walk to visit all bins with approximately equal
//! frequency.
//!
//! The caller supplies the physical model — a state type, a move proposer, a
//! state-to-bin mapper and a random source — through the traits in
//! [`traits`]; the crate supplies the driver ([`driver::WLDriver`]), two
//! modification-factor schedules ([`schedule::Geometric`] and
//! [`schedule::OneOverT`]) and two histogram-flatness criteria
//! ([`flatness::Fraction`] and [`flatness::RMS`]).
//!
//! All real-valued quantities are exact rationals ([`ratio::Ratio`]), so
//! every comparison the engine and its strategies make is exact and every
//! contract states the result precisely.

pub mod driver;
pub mod flatness;
pub mod hist;
pub mod ratio;
pub mod rng;
pub mod schedule;
pub mod traits;
