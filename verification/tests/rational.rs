//! Exact rational arithmetic: comparisons, sums, products and their
//! saturation behavior, and the default parameters.

use wanglandau::driver::Params;
use wanglandau::ratio::Ratio;

fn r(num: u64, den: u64) -> Ratio {
    Ratio::new(num, den)
}

#[test]
fn comparisons_are_exact() {
    assert!(r(1, 3).lt(&r(1, 2)));
    assert!(!r(1, 2).lt(&r(1, 2)));
    assert!(r(1, 2).le(&r(2, 4)));
    assert!(r(2, 4).le(&r(1, 2)));
    assert!(!r(100_000_001, 100_000_000).le(&r(1, 1)));
    // Cross multiplication does not overflow even at the extremes.
    assert!(r(u64::MAX - 1, u64::MAX).lt(&r(u64::MAX, u64::MAX - 1)));
}

#[test]
fn sums_are_exact_when_representable() {
    assert_eq!(r(1, 2).plus(&r(1, 2)), r(2, 2));
    assert_eq!(r(1, 2).plus(&r(1, 4)), r(3, 4));
    assert_eq!(r(3, 4).plus(&r(1, 2)), r(5, 4));
    assert_eq!(r(1, 3).plus(&r(1, 5)), r(8, 15));
    assert_eq!(r(0, 1).plus(&r(7, 9)), r(7, 9));
}

#[test]
fn sums_saturate_at_the_cap() {
    let cap = r(u64::MAX, 1);
    assert_eq!(r(u64::MAX, 1).plus(&r(1, 1)), cap);
    assert_eq!(r(u64::MAX - 1, u64::MAX).plus(&r(u64::MAX - 2, u64::MAX - 1)), cap);
    // The cap is an upper bound: adding to it stays there.
    assert_eq!(cap.plus(&r(5, 7)), cap);
}

#[test]
fn products_are_exact_when_representable() {
    assert_eq!(r(1, 1).times(&r(1, 2)), r(1, 2));
    assert_eq!(r(3, 10).times(&r(3, 10)), r(9, 100));
    assert_eq!(r(0, 5).times(&r(4, 3)), r(0, 15));
}

#[test]
fn products_collapse_to_the_smallest_positive_value_on_overflow() {
    assert_eq!(r(1, u64::MAX).times(&r(1, 2)), r(1, u64::MAX));
}

#[test]
fn default_params_match_the_documented_values() {
    let p = Params::default();
    assert_eq!(p.ln_f0, r(1, 1));
    assert_eq!(p.ln_f_min, r(1, 100_000_000));
    assert_eq!(p.flatness, r(4, 5));
    assert_eq!(p.sweep_len, 1);
}
