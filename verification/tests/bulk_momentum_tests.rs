use ta_stream::fp::Fp;
use ta_stream::momentum::{
    awesome_oscillator, kama, momentum, ppo, pvo, roc, rsi, stochastic, stochastic_rsi, tsi,
    ultimate_oscillator, williams_r,
};

fn fp(x: f64) -> Fp {
    Fp::from_bits(x.to_bits())
}

fn series(xs: &[f64]) -> Vec<Fp> {
    xs.iter().map(|&x| fp(x)).collect()
}

fn values(xs: &[Fp]) -> Vec<f64> {
    xs.iter().map(|&x| f64::from_bits(x.to_bits())).collect()
}

fn same(got: &[f64], expected: &[f64]) {
    assert_eq!(got.len(), expected.len());
    for k in 0..got.len() {
        if expected[k].is_nan() {
            assert!(got[k].is_nan(), "position {}: {} is not undefined", k, got[k]);
        } else {
            assert_eq!(got[k].to_bits(), expected[k].to_bits(), "position {}", k);
        }
    }
}

fn rsi_reference(close: &[f64], n: usize) -> Vec<f64> {
    let len = close.len();
    let mut out = vec![f64::NAN; len];
    if len < 2 || n == 0 || len <= n {
        return out;
    }
    let mut gains = vec![0.0; len];
    let mut losses = vec![0.0; len];
    for i in 1..len {
        let delta = close[i] - close[i - 1];
        if delta > 0.0 {
            gains[i] = delta;
        } else {
            losses[i] = -delta;
        }
    }
    let alpha = 1.0 / n as f64;
    let mut avg_gain = vec![f64::NAN; len];
    let mut avg_loss = vec![f64::NAN; len];
    let mut sum_gain = 0.0;
    let mut sum_loss = 0.0;
    for i in 1..=n {
        sum_gain += gains[i];
        sum_loss += losses[i];
    }
    avg_gain[n] = sum_gain / n as f64;
    avg_loss[n] = sum_loss / n as f64;
    for i in (n + 1)..len {
        avg_gain[i] = alpha * gains[i] + (1.0 - alpha) * avg_gain[i - 1];
        avg_loss[i] = alpha * losses[i] + (1.0 - alpha) * avg_loss[i - 1];
    }
    for i in n..len {
        out[i] = if avg_loss[i] == 0.0 {
            100.0
        } else {
            100.0 - (100.0 / (1.0 + avg_gain[i] / avg_loss[i]))
        };
    }
    out
}

const CLOSE: [f64; 12] =
    [44.34, 44.09, 44.15, 43.61, 44.33, 44.83, 45.10, 45.42, 45.84, 46.08, 45.89, 46.03];

#[test]
fn bulk_rsi_follows_the_reference_bit_for_bit() {
    for n in [0usize, 1, 3, 5, 11, 12, 20] {
        same(&values(&rsi(&series(&CLOSE), n)), &rsi_reference(&CLOSE, n));
    }
    assert!(rsi(&[], 3).is_empty());
    same(&values(&rsi(&series(&[1.0]), 3)), &[f64::NAN]);
}

#[test]
fn rsi_of_a_rising_series_is_a_hundred() {
    let close: Vec<f64> = (0..20).map(|i| 10.0 + i as f64).collect();
    let got = values(&rsi(&series(&close), 14));
    for k in 0..14 {
        assert!(got[k].is_nan());
    }
    for k in 14..20 {
        assert_eq!(got[k], 100.0);
    }
}

#[test]
fn stochastic_and_williams_use_the_fallbacks_on_an_empty_range() {
    let flat = series(&[5.0; 4]);
    let (k, d) = stochastic(&flat, &flat, &flat, 2, 2);
    let nan = f64::NAN;
    same(&values(&k), &[nan, 50.0, 50.0, 50.0]);
    same(&values(&d), &[nan, nan, 50.0, 50.0]);
    same(&values(&williams_r(&flat, &flat, &flat, 2)), &[nan, -100.0, -100.0, -100.0]);
    same(&values(&williams_r(&flat, &flat, &flat, 0)), &[nan; 4]);
    same(&values(&stochastic(&flat, &flat, &flat, 0, 2).0), &[nan; 4]);
}

#[test]
fn bulk_stochastic_places_the_close_in_the_range() {
    let high = series(&[10.0, 12.0, 13.0]);
    let low = series(&[8.0, 9.0, 10.0]);
    let close = series(&[9.0, 11.0, 10.0]);
    let (k, d) = stochastic(&high, &low, &close, 2, 2);
    let k = values(&k);
    assert!(k[0].is_nan());
    assert_eq!(k[1], 100.0 * (11.0 - 8.0) / (12.0 - 8.0));
    assert_eq!(k[2], 100.0 * (10.0 - 9.0) / (13.0 - 9.0));
    assert_eq!(values(&d)[2], (k[1] + k[2]) / 2.0);
    let wr = values(&williams_r(&high, &low, &close, 2));
    assert_eq!(wr[1], -100.0 * (12.0 - 11.0) / (12.0 - 8.0));
}

#[test]
fn ppo_and_pvo_differ_only_in_the_seeding_of_the_signal() {
    let data = series(&CLOSE);
    let (line_p, signal_p, hist_p) = ppo(&data, 2, 4, 3);
    let (line_v, signal_v, hist_v) = pvo(&data, 2, 4, 3);
    same(&values(&line_p), &values(&line_v));
    let (line, signal_p, signal_v) = (values(&line_p), values(&signal_p), values(&signal_v));
    assert_eq!(signal_p[0], line[0]);
    assert_eq!(signal_v[0], line[0]);
    assert_eq!(signal_p[1], 0.5 * line[1] + 0.5 * line[0]);
    assert_eq!(signal_v[1], (line[0] * 0.5 + line[1]) / 1.5);
    assert_eq!(values(&hist_p)[1], line[1] - signal_p[1]);
    assert_eq!(values(&hist_v)[1], line[1] - signal_v[1]);
}

#[test]
fn bulk_ultimate_oscillator_blends_three_periods() {
    let high = series(&[10.0, 11.0, 12.0, 13.0]);
    let low = series(&[8.0, 9.0, 10.0, 11.0]);
    let close = series(&[9.0, 10.0, 11.0, 12.0]);
    let got = values(&ultimate_oscillator(&high, &low, &close, 1, 2, 3));
    assert!(got[0].is_nan() && got[1].is_nan());
    let bp = [0.0, 1.0, 1.0, 1.0];
    let tr = [2.0, 2.0, 2.0, 2.0];
    let avg1 = bp[2] / tr[2];
    let avg2 = (bp[1] + bp[2]) / (tr[1] + tr[2]);
    let avg3 = (bp[0] + bp[1] + bp[2]) / (tr[0] + tr[1] + tr[2]);
    assert_eq!(got[2], 100.0 * (4.0 * avg1 + 2.0 * avg2 + avg3) / 7.0);
    assert!(ultimate_oscillator(&[], &[], &[], 1, 2, 3).is_empty());
    same(&values(&ultimate_oscillator(&high, &low, &close, 1, 2, 0)), &[f64::NAN; 4]);
}

#[test]
fn stochastic_rsi_starts_after_two_windows() {
    let (stoch, k, d) = stochastic_rsi(&series(&CLOSE), 3, 2, 2);
    let (stoch, k, d) = (values(&stoch), values(&k), values(&d));
    for i in 0..4 {
        assert!(stoch[i].is_nan());
    }
    for i in 4..12 {
        assert!(stoch[i] >= 0.0 && stoch[i] <= 1.0);
    }
    assert!(k[4].is_nan());
    assert_eq!(k[5], (stoch[4] + stoch[5]) / 2.0);
    assert!(d[5].is_nan());
    assert_eq!(d[6], (k[5] + k[6]) / 2.0);
    same(&values(&stochastic_rsi(&series(&CLOSE), 0, 2, 2).0), &[f64::NAN; 12]);
}

#[test]
fn tsi_of_a_steady_rise_is_a_hundred_after_the_first_close() {
    let close: Vec<f64> = (1..8).map(|i| i as f64).collect();
    let got = values(&tsi(&series(&close), 3, 2));
    assert!(got[0].is_nan());
    for k in 1..7 {
        assert!((got[k] - 100.0).abs() < 1e-9);
    }
}

#[test]
fn awesome_oscillator_is_the_difference_of_two_averages() {
    let high = series(&[10.0, 12.0, 14.0]);
    let low = series(&[8.0, 10.0, 12.0]);
    let got = values(&awesome_oscillator(&high, &low, 1, 2));
    assert!(got[0].is_nan());
    assert_eq!(got[1], 11.0 - 10.0);
    assert_eq!(got[2], 13.0 - 12.0);
}

#[test]
fn kama_seeds_with_the_close_before_the_first_ratio() {
    let close = [10.0, 11.0, 12.0, 13.0, 12.0];
    let got = values(&kama(&series(&close), 2, 2, 30));
    assert!(got[0].is_nan());
    assert_eq!(got[1], 11.0);
    let fast = 2.0 / 3.0;
    let slow = 2.0 / 31.0;
    let er: f64 = (12.0f64 - 10.0).abs() / (1.0 + 1.0);
    let sc = (er * (fast - slow) + slow) * (er * (fast - slow) + slow);
    assert_eq!(got[2], 11.0 + sc * (12.0 - 11.0));
    same(&values(&kama(&series(&close), 0, 2, 30)), &[f64::NAN; 5]);
    same(&values(&kama(&series(&close), 5, 2, 30)), &[f64::NAN; 5]);
}

#[test]
fn roc_and_momentum_look_back_by_the_period() {
    let close = series(&[10.0, 11.0, 12.0, 0.0, 5.0]);
    let nan = f64::NAN;
    same(
        &values(&roc(&close, 2)),
        &[
            nan,
            nan,
            (12.0 - 10.0) / 10.0 * 100.0,
            (0.0 - 11.0) / 11.0 * 100.0,
            (5.0 - 12.0) / 12.0 * 100.0,
        ],
    );
    same(&values(&roc(&close, 1))[4..], &[nan]);
    same(&values(&momentum(&close, 2)), &[nan, nan, 2.0, -11.0, -7.0]);
}
