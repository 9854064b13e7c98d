//! Behavior of the two flatness criteria on concrete histograms.

use wanglandau::flatness::{Fraction, RMS};
use wanglandau::ratio::Ratio;
use wanglandau::traits::Flatness;

fn p(num: u64, den: u64) -> Ratio {
    Ratio { num, den }
}

#[test]
fn uniform_histograms_are_flat_for_both_criteria() {
    let hists: [&[u64]; 4] = [&[5], &[5, 5, 5], &[1, 1, 1, 1, 1, 1], &[1000, 1000]];
    let params: [Ratio; 4] = [p(1, 2), p(4, 5), p(9, 10), p(1, 1)];
    for h in hists.iter() {
        for fp in params.iter() {
            assert!(Fraction.is_flat(h, fp), "Fraction should accept an all-equal histogram");
            assert!(RMS.is_flat(h, fp), "RMS should accept an all-equal histogram");
        }
    }
}

#[test]
fn all_zero_histogram_fraction_flat_rms_not() {
    // Both sides of the Fraction comparison are zero, so it holds; the RMS
    // quotient is undefined at mean zero, which counts as not flat.
    let h: &[u64] = &[0, 0, 0];
    assert!(Fraction.is_flat(h, &p(4, 5)));
    assert!(!RMS.is_flat(h, &p(4, 5)));
}

#[test]
fn empty_histogram_is_never_flat() {
    let h: &[u64] = &[];
    assert!(!Fraction.is_flat(h, &p(4, 5)));
    assert!(!RMS.is_flat(h, &p(4, 5)));
}

#[test]
fn zero_bin_among_positive_is_not_fraction_flat() {
    assert!(!Fraction.is_flat(&[0, 3, 4], &p(4, 5)));
    assert!(!Fraction.is_flat(&[7, 0], &p(1, 2)));
    assert!(!Fraction.is_flat(&[1, 1, 0, 1], &p(1, 10000)));
}

#[test]
fn fraction_thresholds_exactly() {
    // Mean of [80, 95, 103, 88, 90] is 91.2; the minimum 80 is above
    // 0.8 * 91.2 = 72.96 but below 0.9 * 91.2 = 82.08.
    let h: &[u64] = &[80, 95, 103, 88, 90];
    assert!(Fraction.is_flat(h, &p(4, 5)));
    assert!(!Fraction.is_flat(h, &p(9, 10)));
    // min * len * den >= num * sum turns into equality at min = c * mean:
    // [3, 4, 5] has mean 4 and min 3, so the histogram is flat at 3/4
    // exactly and not at anything stricter.
    let g: &[u64] = &[3, 4, 5];
    assert!(Fraction.is_flat(g, &p(3, 4)));
    assert!(!Fraction.is_flat(g, &p(7501, 10000)));
}

#[test]
fn rms_thresholds_exactly() {
    // Mean of [95, 105, 98, 102, 100] is 100, population variance is 13.6,
    // so the relative standard deviation is about 0.0369: flat at 0.9
    // (allowing 0.1) and not flat at 0.97 (allowing 0.03).
    let h: &[u64] = &[95, 105, 98, 102, 100];
    assert!(RMS.is_flat(h, &p(9, 10)));
    assert!(!RMS.is_flat(h, &p(97, 100)));
    // [1, 3] has mean 2 and population standard deviation 1, so the
    // relative deviation is exactly 1/2: flat at 1/2, not flat at 5001/10000.
    let g: &[u64] = &[1, 3];
    assert!(RMS.is_flat(g, &p(1, 2)));
    assert!(!RMS.is_flat(g, &p(5001, 10000)));
}
