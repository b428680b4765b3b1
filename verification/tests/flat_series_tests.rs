use ta_stream::formulas::wilder_constant_is_usable;
use ta_stream::fp::Fp;
use ta_stream::series::flat_mean_is_exact;
use ta_stream::streaming::momentum::flat_rsi_is_hundred;
use ta_stream::streaming::trend::flat_cci_is_zero;
use ta_stream::streaming::volatility::{flat_atr_is_zero, flat_window_has_no_spread};

fn fp(x: f64) -> Fp {
    Fp::from_bits(x.to_bits())
}

#[test]
fn the_mean_of_copies_is_exact_for_some_values_and_not_for_others() {
    assert!(flat_mean_is_exact(fp(100.0), 3));
    assert!(flat_mean_is_exact(fp(7.25), 14));
    assert!(flat_mean_is_exact(fp(0.0), 5));
    assert!(!flat_mean_is_exact(fp(0.1), 3));
    assert!(!flat_mean_is_exact(fp(100.0), 0));
    assert!(!flat_mean_is_exact(fp(f64::NAN), 3));
    assert!(!flat_mean_is_exact(fp(f64::INFINITY), 3));
    assert_eq!(flat_mean_is_exact(fp(0.1), 3), (0.1 + 0.1 + 0.1) / 3.0 == 0.1);
    assert_eq!(flat_mean_is_exact(fp(0.3), 7), (0..7).fold(0.0, |a, _| a + 0.3) / 7.0 == 0.3);
}

#[test]
fn the_tests_behind_the_flat_series_laws_agree_with_the_mean_test() {
    for &(x, window) in [(100.0, 3usize), (0.1, 3), (2.5, 20), (1e300, 4)].iter() {
        let exact = flat_mean_is_exact(fp(x), window);
        assert_eq!(flat_window_has_no_spread(fp(x), window), exact);
        assert_eq!(flat_cci_is_zero(fp(x), window), exact);
    }
}

#[test]
fn the_constant_of_a_window_is_usable_unless_the_window_is_zero() {
    for window in [1usize, 2, 3, 14, 1000] {
        assert!(wilder_constant_is_usable(window));
        assert!(flat_atr_is_zero(window));
        assert!(flat_rsi_is_hundred(window));
    }
    assert!(!wilder_constant_is_usable(0));
    assert!(!flat_atr_is_zero(0));
    assert!(!flat_rsi_is_hundred(0));
}

#[test]
fn finite_means_neither_undefined_nor_infinite() {
    assert!(fp(0.0).is_finite());
    assert!(fp(-1.5e300).is_finite());
    assert!(!fp(f64::INFINITY).is_finite());
    assert!(!fp(f64::NEG_INFINITY).is_finite());
    assert!(!fp(f64::NAN).is_finite());
}
