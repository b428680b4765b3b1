use ta_stream::fp::Fp;
use ta_stream::streaming::others::{
    CalmarRatioStreaming, CompoundLogReturnStreaming, CumulativeReturnStreaming,
    DailyLogReturnStreaming, DailyReturnStreaming, LinearRegressionSlopeStreaming,
    MaxDrawdownStreaming, RollingPercentileStreaming, RollingReturnStreaming,
    RollingZScoreStreaming, SharpeRatioStreaming,
};

fn fp(x: f64) -> Fp {
    Fp::from_bits(x.to_bits())
}

fn val(x: Fp) -> f64 {
    f64::from_bits(x.to_bits())
}

#[test]
fn daily_return_is_the_change_in_percent() {
    let mut unit = DailyReturnStreaming::new();
    assert!(val(unit.update(fp(100.0))).is_nan());
    assert_eq!(val(unit.update(fp(110.0))), (110.0 - 100.0) / 100.0 * 100.0);
    assert_eq!(val(unit.update(fp(0.0))), -100.0);
    assert!(val(unit.update(fp(5.0))).is_nan());
}

#[test]
fn daily_log_return_needs_positive_prices() {
    let mut unit = DailyLogReturnStreaming::new();
    assert!(val(unit.update(fp(100.0))).is_nan());
    assert!((val(unit.update(fp(110.0))) - (1.1f64).ln() * 100.0).abs() < 1e-12);
    assert!(val(unit.update(fp(0.0))).is_nan());
    assert!(val(unit.update(fp(5.0))).is_nan());
}

#[test]
fn cumulative_return_is_measured_against_the_first_price() {
    let mut unit = CumulativeReturnStreaming::new();
    assert_eq!(val(unit.update(fp(100.0))), 0.0);
    assert_eq!(val(unit.update(fp(110.0))), ((110.0 / 100.0) - 1.0) * 100.0);
    assert_eq!(val(unit.update(fp(50.0))), -50.0);
    let mut from_zero = CumulativeReturnStreaming::new();
    assert_eq!(val(from_zero.update(fp(0.0))), 0.0);
    assert!(val(from_zero.update(fp(5.0))).is_nan());
}

#[test]
fn rolling_return_compares_the_ends_of_the_window() {
    let mut unit = RollingReturnStreaming::new(3);
    assert!(val(unit.update(fp(100.0))).is_nan());
    assert!(val(unit.update(fp(105.0))).is_nan());
    assert_eq!(val(unit.update(fp(110.0))), 10.0);
    assert_eq!(val(unit.update(fp(84.0))), (84.0 - 105.0) / 105.0 * 100.0);
}

#[test]
fn max_drawdown_is_the_deepest_fall_from_a_peak() {
    let mut unit = MaxDrawdownStreaming::new(4);
    assert!(val(unit.update(fp(100.0))).is_nan());
    assert!(val(unit.update(fp(120.0))).is_nan());
    assert!(val(unit.update(fp(90.0))).is_nan());
    assert_eq!(val(unit.update(fp(130.0))), (90.0 - 120.0) / 120.0 * 100.0);
    assert_eq!(val(unit.update(fp(140.0))), -25.0);
    assert_eq!(val(unit.update(fp(150.0))), 0.0);
}

#[test]
fn max_drawdown_waits_for_its_window() {
    let mut unit = MaxDrawdownStreaming::new(3);
    assert!(val(unit.update(fp(10.0))).is_nan());
    assert!(val(unit.update(fp(5.0))).is_nan());
    assert_eq!(val(unit.update(fp(20.0))), -50.0);
    let mut single = MaxDrawdownStreaming::new(1);
    assert_eq!(val(single.update(fp(10.0))), 0.0);
    assert_eq!(val(single.update(fp(5.0))), 0.0);
}

#[test]
fn sharpe_ratio_is_zero_without_volatility() {
    let mut unit = SharpeRatioStreaming::new(2, fp(0.0), fp(252.0));
    assert!(val(unit.update(fp(100.0))).is_nan());
    assert!(val(unit.update(fp(100.0))).is_nan());
    assert_eq!(val(unit.update(fp(100.0))), 0.0);
}

#[test]
fn sharpe_ratio_is_excess_return_over_volatility() {
    let mut unit = SharpeRatioStreaming::new(2, fp(0.01), fp(4.0));
    unit.update(fp(100.0));
    unit.update(fp(110.0));
    let got = val(unit.update(fp(99.0)));
    let r1 = (110.0f64 / 100.0).ln();
    let r2 = (99.0f64 / 110.0).ln();
    let avg = (r1 + r2) / 2.0;
    let variance = ((r1 - avg) * (r1 - avg) + (r2 - avg) * (r2 - avg)) / 1.0;
    let expected = (avg * 4.0 - 0.01) / (variance.sqrt() * 2.0);
    assert!((got - expected).abs() < 1e-12);
}

#[test]
fn compound_log_return_compounds_the_sum_of_log_returns() {
    let mut unit = CompoundLogReturnStreaming::new();
    assert_eq!(val(unit.update(fp(100.0))), 0.0);
    assert!((val(unit.update(fp(110.0))) - 10.0).abs() < 1e-11);
    assert!((val(unit.update(fp(121.0))) - 21.0).abs() < 1e-11);
    unit.reset();
    assert_eq!(val(unit.update(fp(50.0))), 0.0);
}

#[test]
fn zscore_is_zero_on_a_flat_window_and_measures_distance_otherwise() {
    let mut flat = RollingZScoreStreaming::new(3);
    flat.update(fp(5.0));
    flat.update(fp(5.0));
    assert_eq!(val(flat.update(fp(5.0))), 0.0);
    let mut unit = RollingZScoreStreaming::new(3);
    unit.update(fp(1.0));
    unit.update(fp(2.0));
    assert_eq!(val(unit.update(fp(3.0))), (3.0 - 2.0) / (2.0f64 / 3.0).sqrt());
}

#[test]
fn slope_of_a_line_is_its_gradient() {
    let mut unit = LinearRegressionSlopeStreaming::new(4);
    let out: Vec<f64> = (0..6).map(|i| val(unit.update(fp(3.0 + 2.0 * i as f64)))).collect();
    assert!(out[0].is_nan() && out[1].is_nan() && out[2].is_nan());
    assert_eq!(out[3], 2.0);
    assert_eq!(out[5], 2.0);
}

#[test]
fn slope_over_a_window_of_one_is_undefined() {
    let mut unit = LinearRegressionSlopeStreaming::new(1);
    assert!(val(unit.update(fp(3.0))).is_nan());
    assert!(val(unit.update(fp(4.0))).is_nan());
}

#[test]
fn percentile_is_the_share_of_samples_not_above_the_newest() {
    let mut unit = RollingPercentileStreaming::new(4);
    let input = [3.0, 1.0, 4.0, 2.0, 5.0];
    let out: Vec<f64> = input.iter().map(|&x| val(unit.update(fp(x)))).collect();
    assert!(out[2].is_nan());
    assert_eq!(out[3], 2.0 / 4.0);
    assert_eq!(out[4], 4.0 / 4.0);
}

#[test]
fn calmar_ratio_is_annual_return_over_deepest_drawdown() {
    let mut unit = CalmarRatioStreaming::new(3);
    unit.update(fp(100.0));
    unit.update(fp(80.0));
    let got = val(unit.update(fp(110.0)));
    let annual = ((110.0 / 100.0) - 1.0) * (252.0 / 3.0);
    assert_eq!(got, annual / 0.2);
    let mut rising = CalmarRatioStreaming::new(2);
    rising.update(fp(1.0));
    assert_eq!(val(rising.update(fp(2.0))), 0.0);
}
