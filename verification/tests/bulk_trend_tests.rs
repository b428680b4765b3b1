use ta_stream::fp::Fp;
use ta_stream::trend::{
    adx, aroon, cci, dpo, ema, ichimoku, kst, macd, mass_index, parabolic_sar,
    schaff_trend_cycle, sma, trix, vortex_indicator, wma,
};

fn fp(x: f64) -> Fp {
    Fp::from_bits(x.to_bits())
}

fn series(xs: &[f64]) -> Vec<Fp> {
    xs.iter().map(|&x| fp(x)).collect()
}

fn values(xs: &[Fp]) -> Vec<f64> {
    xs.iter().map(|&x| f64::from_bits(x.to_bits())).collect()
}

fn same(got: &[f64], expected: &[f64]) {
    assert_eq!(got.len(), expected.len());
    for k in 0..got.len() {
        if expected[k].is_nan() {
            assert!(got[k].is_nan(), "position {}: {} is not undefined", k, got[k]);
        } else {
            assert_eq!(got[k].to_bits(), expected[k].to_bits(), "position {}", k);
        }
    }
}

const HIGH: [f64; 8] = [10.0, 12.0, 11.0, 13.0, 14.0, 13.5, 15.0, 14.0];
const LOW: [f64; 8] = [8.0, 9.0, 10.0, 11.0, 12.0, 12.0, 13.0, 12.5];
const CLOSE: [f64; 8] = [9.0, 11.0, 10.5, 12.5, 13.0, 12.5, 14.5, 13.0];

#[test]
fn sma_and_wma_of_a_short_series() {
    let nan = f64::NAN;
    let data = series(&[1.0, 2.0, 3.0, 4.0, 5.0]);
    same(&values(&sma(&data, 3)), &[nan, nan, 2.0, 3.0, 4.0]);
    same(
        &values(&wma(&data, 3)),
        &[nan, nan, (1.0 + 4.0 + 9.0) / 6.0, (2.0 + 6.0 + 12.0) / 6.0, (3.0 + 8.0 + 15.0) / 6.0],
    );
    same(&values(&wma(&data, 0)), &[nan; 5]);
    same(&values(&wma(&data, 6)), &[nan; 5]);
}

#[test]
fn ema_uses_two_over_window_plus_one() {
    let data = series(&[1.0, 2.0, 3.0]);
    same(&values(&ema(&data, 3, false)), &[1.0, 1.5, 2.25]);
}

#[test]
fn macd_histogram_is_line_less_signal() {
    let close = series(&CLOSE);
    let (line, signal, hist) = macd(&close, 2, 4, 3, false);
    let (line, signal, hist) = (values(&line), values(&signal), values(&hist));
    let mut fast = CLOSE[0];
    let mut slow = CLOSE[0];
    let mut weighted = 0.0;
    let mut divisor = 0.0;
    for k in 0..CLOSE.len() {
        if k > 0 {
            fast = (2.0 / 3.0) * CLOSE[k] + (1.0 - 2.0 / 3.0) * fast;
            slow = 0.4 * CLOSE[k] + (1.0 - 0.4) * slow;
        }
        assert_eq!(line[k], fast - slow);
        if k == 0 {
            weighted = line[0];
            divisor = 1.0;
            assert_eq!(signal[0], line[0]);
        } else {
            weighted = weighted * (1.0 - 0.5) + line[k];
            divisor = divisor * (1.0 - 0.5) + 1.0;
            assert_eq!(signal[k], weighted / divisor);
        }
        assert_eq!(hist[k], line[k] - signal[k]);
    }
}

#[test]
fn adx_is_undefined_until_the_wilder_seed() {
    let (adx_values, plus, minus) = adx(&series(&HIGH), &series(&LOW), &series(&CLOSE), 3);
    let (adx_values, plus, minus) = (values(&adx_values), values(&plus), values(&minus));
    assert!(plus[0].is_nan() && plus[1].is_nan() && minus[1].is_nan());
    assert!(!plus[2].is_nan() && !minus[2].is_nan());
    let tr = [2.0, 3.0, 1.0];
    let atr = (tr[0] + tr[1] + tr[2]) / 3.0;
    let plus_dm = (0.0 + 2.0 + 0.0) / 3.0;
    assert_eq!(plus[2], (plus_dm / atr) * 100.0);
    assert_eq!(minus[2], 0.0);
    assert!(adx_values[3].is_nan());
    assert!(!adx_values[4].is_nan());
    for k in 4..8 {
        assert!(adx_values[k] >= 0.0 && adx_values[k] <= 100.0);
    }
}

#[test]
fn cci_of_a_flat_series_is_zero_and_of_a_zero_window_undefined() {
    let flat = series(&[100.0; 6]);
    let nan = f64::NAN;
    same(&values(&cci(&flat, &flat, &flat, 3, fp(0.015))), &[nan, nan, 0.0, 0.0, 0.0, 0.0]);
    same(&values(&cci(&flat, &flat, &flat, 0, fp(0.015))), &[nan; 6]);
    same(&values(&cci(&flat, &flat, &flat, 7, fp(0.015))), &[nan; 6]);
}

#[test]
fn cci_measures_the_distance_from_the_moving_average() {
    let prices = series(&[1.0, 3.0, 8.0]);
    let got = values(&cci(&prices, &prices, &prices, 2, fp(0.5)));
    assert!(got[0].is_nan());
    assert_eq!(got[1], (3.0 - 2.0) / (0.5 * 1.0));
    assert_eq!(got[2], (8.0 - 5.5) / (0.5 * 2.5));
}

#[test]
fn dpo_takes_the_average_from_half_a_window_back() {
    let data = series(&[1.0, 2.0, 3.0, 4.0, 5.0, 6.0]);
    let nan = f64::NAN;
    same(&values(&dpo(&data, 2)), &[nan, nan, 3.0 - 1.5, 4.0 - 2.5, 5.0 - 3.5, 6.0 - 4.5]);
}

#[test]
fn vortex_is_a_ratio_of_rolling_sums() {
    let (plus, minus) = vortex_indicator(&series(&HIGH), &series(&LOW), &series(&CLOSE), 2);
    let (plus, minus) = (values(&plus), values(&minus));
    assert!(plus[0].is_nan() && minus[0].is_nan());
    assert_eq!(plus[1], (0.0 + 4.0) / (2.0 + 3.0));
    assert_eq!(minus[1], (0.0 + 1.0) / (2.0 + 3.0));
    assert_eq!(plus[2], (4.0 + 2.0) / (3.0 + 1.0));
}

#[test]
fn parabolic_sar_starts_below_a_rising_series() {
    let high = series(&[10.0, 11.0, 12.0, 13.0, 9.5]);
    let low = series(&[9.0, 10.0, 11.0, 12.0, 8.0]);
    let close = series(&[9.5, 10.5, 11.5, 12.5, 8.5]);
    let got = values(&parabolic_sar(&high, &low, &close, fp(0.02), fp(0.02), fp(0.2)));
    assert_eq!(got[0], 9.0);
    assert_eq!(got[1], 9.0);
    let third = (9.0f64 + 0.02 * (11.0 - 9.0)).min(10.0).min(9.0);
    assert_eq!(got[2], third);
    let fourth = (third + 0.04 * (12.0 - third)).min(11.0).min(10.0);
    assert_eq!(got[3], fourth);
    assert_eq!(got[4], 13.0);
    let (af, step, cap) = (fp(0.02), fp(0.02), fp(0.2));
    let short = values(&parabolic_sar(&high[..1], &low[..1], &close[..1], af, step, cap));
    assert!(short[0].is_nan());
}

#[test]
fn trix_is_the_percentage_step_of_the_triple_average() {
    let got = values(&trix(&series(&[10.0, 11.0, 12.0]), 1));
    assert!(got[0].is_nan());
    assert!(!got[1].is_nan() && got[1] > 0.0);
    assert!(!got[2].is_nan() && got[2] > 0.0);
}

#[test]
fn mass_index_sums_the_ratio_of_the_averages() {
    let high = series(&[10.0, 12.0, 11.0, 13.0]);
    let low = series(&[8.0, 9.0, 10.0, 11.0]);
    let got = values(&mass_index(&high, &low, 1, 2));
    assert!(got[0].is_nan());
    assert_eq!(got.len(), 4);
    for k in 1..4 {
        assert!((got[k] - 2.0).abs() < 1.0);
    }
    same(&values(&mass_index(&high, &low, 1, 0)), &[f64::NAN; 4]);
}

#[test]
fn kst_has_one_value_for_each_close() {
    let close = series(&[10.0, 11.0, 12.0, 13.0, 14.0, 15.0, 16.0, 17.0]);
    let (line, signal) = kst(&close, 1, 1, 1, 1, 1, 1, 1, 1, 2);
    assert_eq!(line.len(), 8);
    assert_eq!(signal.len(), 8);
    let line = values(&line);
    assert!(line[0].is_nan());
}

#[test]
fn ichimoku_lines_are_midpoints_and_the_lagging_span_is_the_close_moved_back() {
    let (tenkan, kijun, senkou_a, senkou_b, chikou) =
        ichimoku(&series(&HIGH), &series(&LOW), &series(&CLOSE), 2, 3, 4);
    let (tenkan, kijun, senkou_a, senkou_b, chikou) =
        (values(&tenkan), values(&kijun), values(&senkou_a), values(&senkou_b), values(&chikou));
    assert!(tenkan[0].is_nan());
    assert_eq!(tenkan[1], (12.0 + 8.0) / 2.0);
    assert!(kijun[1].is_nan());
    assert_eq!(kijun[2], (12.0 + 8.0) / 2.0);
    assert!(senkou_a[1].is_nan());
    assert_eq!(senkou_a[2], ((12.0 + 9.0) / 2.0 + 10.0) / 2.0);
    assert!(senkou_b[2].is_nan());
    assert_eq!(senkou_b[3], (13.0 + 8.0) / 2.0);
    assert_eq!(chikou[0], CLOSE[3]);
    assert_eq!(chikou[4], CLOSE[7]);
    assert!(chikou[5].is_nan() && chikou[7].is_nan());
}

#[test]
fn schaff_trend_cycle_stays_between_zero_and_a_hundred() {
    let close: Vec<f64> =
        (0..40).map(|i| 100.0 + ((i * 7) % 11) as f64 - (i as f64) * 0.3).collect();
    let got = values(&schaff_trend_cycle(&series(&close), 3, 6, 4, 2));
    assert_eq!(got.len(), 40);
    for &x in got.iter() {
        assert!(x.is_nan() || (x >= 0.0 && x <= 100.0));
    }
    same(&values(&schaff_trend_cycle(&series(&close), 3, 6, 0, 2)), &[f64::NAN; 40]);
}

#[test]
fn aroon_is_a_hundred_at_a_fresh_extreme_and_zero_at_the_oldest() {
    let high = series(&[1.0, 2.0, 3.0, 2.0, 1.0]);
    let low = series(&[3.0, 2.0, 1.0, 2.0, 3.0]);
    let (up, down) = aroon(&high, &low, 3);
    let (up, down) = (values(&up), values(&down));
    assert!(up[0].is_nan() && up[1].is_nan());
    assert_eq!(up[2], 100.0);
    assert_eq!(down[2], 100.0);
    assert_eq!(up[3], 50.0);
    assert_eq!(down[3], 50.0);
    assert_eq!(up[4], 0.0);
    assert_eq!(down[4], 0.0);
}

#[test]
fn aroon_breaks_ties_by_the_most_recent_occurrence() {
    let flat = series(&[5.0, 5.0, 5.0]);
    let (up, down) = aroon(&flat, &flat, 3);
    assert_eq!(values(&up)[2], 100.0);
    assert_eq!(values(&down)[2], 100.0);
}
