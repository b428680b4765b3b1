use ta_stream::fp::Fp;
use ta_stream::helpers::{
    ema_kernel, ema_kernel_nan_aware, rolling_max, rolling_mean, rolling_min, rolling_std,
    rolling_sum, sma_kernel, sma_kernel_min0, sma_kernel_nan_aware, true_range,
    wilders_ema_kernel,
};

fn fp(x: f64) -> Fp {
    Fp::from_bits(x.to_bits())
}

fn val(x: Fp) -> f64 {
    f64::from_bits(x.to_bits())
}

fn series(xs: &[f64]) -> Vec<Fp> {
    xs.iter().map(|&x| fp(x)).collect()
}

fn values(xs: &[Fp]) -> Vec<f64> {
    xs.iter().map(|&x| val(x)).collect()
}

#[test]
fn test_sma_kernel() {
    let data = series(&[1.0, 2.0, 3.0, 4.0, 5.0]);
    let result = values(&sma_kernel(&data, 3));

    assert!(result[0].is_nan());
    assert!(result[1].is_nan());
    assert!((result[2] - 2.0).abs() < 1e-10);
    assert!((result[3] - 3.0).abs() < 1e-10);
    assert!((result[4] - 4.0).abs() < 1e-10);
}

#[test]
fn test_ema_kernel_unadjusted() {
    let data = series(&[1.0, 2.0, 3.0, 4.0]);
    let alpha = fp(0.5);
    let result = values(&ema_kernel(&data, alpha, false));

    assert!((result[0] - 1.0).abs() < 1e-10);
    assert!((result[1] - 1.5).abs() < 1e-10);
    assert!((result[2] - 2.25).abs() < 1e-10);
}

#[test]
fn test_true_range() {
    let high = series(&[10.0, 12.0, 11.0]);
    let low = series(&[8.0, 9.0, 10.0]);
    let close = series(&[9.0, 11.0, 10.5]);
    let tr = values(&true_range(&high, &low, &close));

    assert!((tr[0] - 2.0).abs() < 1e-10);
    assert!((tr[1] - 3.0).abs() < 1e-10);
    assert!((tr[2] - 1.0).abs() < 1e-10);
}

#[test]
fn test_rolling_std() {
    let data = series(&[1.0, 2.0, 3.0, 4.0, 5.0]);
    let result = values(&rolling_std(&data, 3));

    assert!(result[0].is_nan());
    assert!(result[1].is_nan());
    assert!((result[2] - 0.816496580927726).abs() < 1e-10);
}

#[test]
fn kernels_give_all_undefined_for_a_window_that_does_not_fit() {
    let data = series(&[1.0, 2.0, 3.0]);
    for window in [0usize, 4, 100] {
        for out in [
            sma_kernel(&data, window),
            sma_kernel_nan_aware(&data, window),
            rolling_std(&data, window),
            rolling_min(&data, window),
            rolling_max(&data, window),
            rolling_mean(&data, window),
            rolling_sum(&data, window),
        ] {
            assert_eq!(out.len(), 3);
            assert!(values(&out).iter().all(|x| x.is_nan()));
        }
    }
    assert!(values(&wilders_ema_kernel(&data, 0)).iter().all(|x| x.is_nan()));
    assert!(values(&wilders_ema_kernel(&data, 4)).iter().all(|x| x.is_nan()));
    assert!(values(&sma_kernel_min0(&data, 0)).iter().all(|x| x.is_nan()));
    assert!(sma_kernel(&[], 3).is_empty());
    assert!(ema_kernel(&[], fp(0.5), true).is_empty());
    assert!(true_range(&[], &[], &[]).is_empty());
}

#[test]
fn ema_kernel_adjusted_weighs_the_samples_seen_so_far() {
    let data = series(&[1.0, 2.0, 3.0]);
    let result = values(&ema_kernel(&data, fp(0.5), true));
    assert_eq!(result[0], 1.0);
    assert_eq!(result[1], (1.0 * 0.5 + 2.0) / 1.5);
    assert_eq!(result[2], ((1.0 * 0.5 + 2.0) * 0.5 + 3.0) / (1.5 * 0.5 + 1.0));
}

#[test]
fn wilders_kernel_seeds_with_the_mean_then_smooths_and_carries_over_gaps() {
    let nan = f64::NAN;
    let data = series(&[nan, 1.0, 2.0, nan, 3.0, 6.0, nan]);
    let result = values(&wilders_ema_kernel(&data, 3));
    assert!(result[0].is_nan());
    assert!(result[1].is_nan());
    assert!(result[2].is_nan());
    assert!(result[3].is_nan());
    assert_eq!(result[4], 2.0);
    let alpha = 1.0 / 3.0;
    let next = 6.0 * alpha + 2.0 * (1.0 - alpha);
    assert_eq!(result[5], next);
    assert_eq!(result[6], next);
}

#[test]
fn nan_aware_sma_is_defined_only_over_windows_without_gaps() {
    let nan = f64::NAN;
    let data = series(&[1.0, nan, 3.0, 5.0, 7.0]);
    let result = values(&sma_kernel_nan_aware(&data, 2));
    assert!(result[0].is_nan());
    assert!(result[1].is_nan());
    assert!(result[2].is_nan());
    assert_eq!(result[3], 4.0);
    assert_eq!(result[4], 6.0);
}

#[test]
fn rolling_sum_leaves_gaps_out() {
    let nan = f64::NAN;
    let data = series(&[1.0, nan, 3.0, 5.0]);
    let result = values(&rolling_sum(&data, 2));
    assert!(result[0].is_nan());
    assert_eq!(result[1], 1.0);
    assert_eq!(result[2], 3.0);
    assert_eq!(result[3], 8.0);
}

#[test]
fn rolling_extremes_follow_the_window() {
    let data = series(&[3.0, 1.0, 4.0, 1.0, 5.0]);
    let lows = values(&rolling_min(&data, 3));
    let highs = values(&rolling_max(&data, 3));
    assert!(lows[1].is_nan() && highs[1].is_nan());
    assert_eq!(&lows[2..], &[1.0, 1.0, 1.0]);
    assert_eq!(&highs[2..], &[4.0, 4.0, 5.0]);
}

#[test]
fn sma_without_minimum_averages_what_there_is() {
    let data = series(&[2.0, 4.0, 6.0, 8.0]);
    let result = values(&sma_kernel_min0(&data, 3));
    assert_eq!(result, vec![2.0, 3.0, 4.0, 6.0]);
}

#[test]
fn gapped_ema_seeds_at_the_first_sample_and_carries_over_gaps() {
    let nan = f64::NAN;
    let data = series(&[nan, 2.0, nan, 4.0]);
    let plain = values(&ema_kernel_nan_aware(&data, fp(0.5), false));
    assert!(plain[0].is_nan());
    assert_eq!(plain[1], 2.0);
    assert_eq!(plain[2], 2.0);
    assert_eq!(plain[3], 3.0);
    let adjusted = values(&ema_kernel_nan_aware(&data, fp(0.5), true));
    assert!(adjusted[0].is_nan());
    assert_eq!(adjusted[1], 2.0);
    assert_eq!(adjusted[2], 2.0);
    assert_eq!(adjusted[3], (4.0 + 0.5 * 2.0) / (1.0 + 0.5 * 1.0));
}
