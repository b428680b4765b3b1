use ta_stream::fp::Fp;
use ta_stream::helpers::{ema_kernel, rolling_std, sma_kernel};
use ta_stream::others::{linear_regression_slope, rolling_percentile, rolling_zscore};
use ta_stream::streaming::others::{
    LinearRegressionSlopeStreaming, RollingPercentileStreaming, RollingZScoreStreaming,
};
use ta_stream::momentum::{kama, ppo, pvo};
use ta_stream::streaming::momentum::{KAMAStreaming, PPOStreaming, PVOStreaming};
use ta_stream::streaming::trend::{
    ADXStreaming, AdjustedEMAStreaming, AroonStreaming, EMAStreaming, MACDStreaming,
    PSARStreaming, SMAStreaming, WMAStreaming,
};
use ta_stream::streaming::volatility::{DonchianChannelStreaming, StandardDeviationStreaming};
use ta_stream::trend::{aroon, macd, wma};
use ta_stream::volatility::donchian_channel;

fn fp(x: f64) -> Fp {
    Fp::from_bits(x.to_bits())
}

fn val(x: Fp) -> f64 {
    f64::from_bits(x.to_bits())
}

fn sample_series() -> Vec<f64> {
    (0..60).map(|i| 100.0 + ((i * 37) % 17) as f64 * 0.73 - (i as f64) * 0.11).collect()
}

fn series(xs: &[f64]) -> Vec<Fp> {
    xs.iter().map(|&x| fp(x)).collect()
}

fn close(a: f64, b: f64) -> bool {
    (a.is_nan() && b.is_nan()) || (a - b).abs() < 1e-9
}

#[test]
fn streaming_sma_matches_the_bulk_kernel_within_tolerance() {
    let data = sample_series();
    let bulk = sma_kernel(&series(&data), 7);
    let mut unit = SMAStreaming::new(7);
    for (k, &x) in data.iter().enumerate() {
        assert!(close(val(unit.update(fp(x))), val(bulk[k])));
    }
}

#[test]
fn streaming_ema_wma_and_deviation_match_the_bulk_kernels_exactly() {
    let data = sample_series();
    let fps = series(&data);
    let bulk_ema = ema_kernel(&fps, fp(2.0 / (5.0 + 1.0)), false);
    let bulk_adjusted = ema_kernel(&fps, fp(2.0 / (5.0 + 1.0)), true);
    let bulk_wma = wma(&fps, 6);
    let bulk_std = rolling_std(&fps, 6);
    let mut ema = EMAStreaming::new(5);
    let mut adjusted = AdjustedEMAStreaming::new(5);
    let mut weighted = WMAStreaming::new(6);
    let mut std = StandardDeviationStreaming::new(6);
    for (k, &x) in fps.iter().enumerate() {
        assert_eq!(ema.update(x).to_bits(), bulk_ema[k].to_bits());
        assert_eq!(adjusted.update(x).to_bits(), bulk_adjusted[k].to_bits());
        let w = weighted.update(x);
        let s = std.update(x);
        if k < 5 {
            assert!(w.is_nan() && s.is_nan() && bulk_wma[k].is_nan() && bulk_std[k].is_nan());
        } else {
            assert_eq!(w.to_bits(), bulk_wma[k].to_bits());
            assert_eq!(s.to_bits(), bulk_std[k].to_bits());
        }
    }
}

#[test]
fn streaming_macd_matches_the_bulk_form_exactly() {
    let data = series(&sample_series());
    let (line, signal, hist) = macd(&data, 3, 7, 4, false);
    let mut unit = MACDStreaming::new(3, 7, 4);
    for (k, &x) in data.iter().enumerate() {
        let r = unit.update(x);
        assert_eq!(r.0.to_bits(), line[k].to_bits());
        assert_eq!(r.1.to_bits(), signal[k].to_bits());
        assert_eq!(r.2.to_bits(), hist[k].to_bits());
    }
}

#[test]
fn streaming_statistics_match_the_bulk_forms_exactly() {
    let data = series(&sample_series());
    let z = rolling_zscore(&data, 8);
    let slope = linear_regression_slope(&data, 8);
    let pct = rolling_percentile(&data, 8);
    let mut z_unit = RollingZScoreStreaming::new(8);
    let mut slope_unit = LinearRegressionSlopeStreaming::new(8);
    let mut pct_unit = RollingPercentileStreaming::new(8);
    for (k, &x) in data.iter().enumerate() {
        let got = (z_unit.update(x), slope_unit.update(x), pct_unit.update(x));
        if k < 7 {
            assert!(got.0.is_nan() && got.1.is_nan() && got.2.is_nan());
            assert!(z[k].is_nan() && slope[k].is_nan() && pct[k].is_nan());
        } else {
            assert_eq!(got.0.to_bits(), z[k].to_bits());
            assert_eq!(got.1.to_bits(), slope[k].to_bits());
            assert_eq!(got.2.to_bits(), pct[k].to_bits());
        }
    }
}

#[test]
fn streaming_donchian_channel_matches_the_bulk_form_exactly() {
    let data = sample_series();
    let high: Vec<Fp> = data.iter().map(|&x| fp(x + 1.0)).collect();
    let low: Vec<Fp> = data.iter().map(|&x| fp(x - 1.0)).collect();
    let (upper, middle, lower) = donchian_channel(&high, &low, 5);
    let mut unit = DonchianChannelStreaming::new(5);
    for k in 0..data.len() {
        let r = unit.update(high[k], low[k]);
        if k < 4 {
            assert!(r.0.is_nan() && r.1.is_nan() && r.2.is_nan());
        } else {
            assert_eq!(r.0.to_bits(), upper[k].to_bits());
            assert_eq!(r.1.to_bits(), middle[k].to_bits());
            assert_eq!(r.2.to_bits(), lower[k].to_bits());
        }
    }
}

#[test]
fn warm_up_ends_exactly_at_the_window() {
    for window in [1usize, 2, 5, 14] {
        let mut sma = SMAStreaming::new(window);
        let mut wma = WMAStreaming::new(window);
        let mut std = StandardDeviationStreaming::new(window);
        for k in 0..30 {
            let x = fp(10.0 + k as f64);
            let out = (sma.update(x), wma.update(x), std.update(x));
            assert_eq!(out.0.is_nan(), k + 1 < window);
            assert_eq!(out.1.is_nan(), k + 1 < window);
            assert_eq!(out.2.is_nan(), k + 1 < window);
        }
    }
}

#[test]
fn every_unit_replays_after_a_reset() {
    let data = sample_series();
    let mut adx = ADXStreaming::new(5);
    let mut psar = PSARStreaming::new(fp(0.02), fp(0.02), fp(0.2));
    let mut macd_unit = MACDStreaming::new(3, 6, 4);
    let mut first = Vec::new();
    for &x in data.iter() {
        let a = adx.update(fp(x + 1.0), fp(x - 1.0), fp(x));
        let p = psar.update(fp(x + 1.0), fp(x - 1.0), fp(x));
        let m = macd_unit.update(fp(x));
        first.push([a.0.to_bits(), a.1.to_bits(), a.2.to_bits(), p.to_bits(), m.1.to_bits()]);
    }
    adx.reset();
    psar.reset();
    macd_unit.reset();
    for (k, &x) in data.iter().enumerate() {
        let a = adx.update(fp(x + 1.0), fp(x - 1.0), fp(x));
        let p = psar.update(fp(x + 1.0), fp(x - 1.0), fp(x));
        let m = macd_unit.update(fp(x));
        let again = [a.0.to_bits(), a.1.to_bits(), a.2.to_bits(), p.to_bits(), m.1.to_bits()];
        assert_eq!(first[k], again);
    }
}

#[test]
fn a_flat_series_whose_mean_is_not_exact_leaves_a_trace_of_spread() {
    let mut std = StandardDeviationStreaming::new(3);
    std.update(fp(0.1));
    std.update(fp(0.1));
    let out = val(std.update(fp(0.1)));
    assert!(out >= 0.0 && out < 1e-15);
}

#[test]
fn streaming_aroon_matches_the_bulk_form_exactly() {
    let data = sample_series();
    let high: Vec<Fp> = data.iter().map(|&x| fp(x + 1.0)).collect();
    let low: Vec<Fp> = data.iter().map(|&x| fp(x - 1.0)).collect();
    for window in [1usize, 2, 5, 14] {
        let (up, down) = aroon(&high, &low, window);
        let mut unit = AroonStreaming::new(window);
        for k in 0..data.len() {
            let r = unit.update(high[k], low[k]);
            if val(up[k]).is_nan() {
                assert!(r.0.is_nan());
            } else {
                assert_eq!(r.0.to_bits(), up[k].to_bits());
            }
            if val(down[k]).is_nan() {
                assert!(r.1.is_nan());
            } else {
                assert_eq!(r.1.to_bits(), down[k].to_bits());
            }
            assert_eq!(k + 1 < window, r.0.is_nan() && window > 1);
        }
    }
}

#[test]
fn streaming_kama_matches_the_bulk_form_exactly() {
    let data = series(&sample_series());
    for window in [1usize, 2, 5, 10] {
        let bulk = kama(&data, window, 2, 30);
        let mut unit = KAMAStreaming::new(window, 2, 30);
        for (k, &x) in data.iter().enumerate() {
            let got = unit.update(x);
            if k + 1 < window {
                assert!(got.is_nan() && bulk[k].is_nan());
            } else {
                assert_eq!(got.to_bits(), bulk[k].to_bits());
            }
        }
    }
}

#[test]
fn wma_reads_only_the_last_window() {
    let a = series(&[9.0, 8.0, 1.0, 2.0, 3.0]);
    let b = series(&[-4.0, 1.0, 2.0, 3.0]);
    let mut first = WMAStreaming::new(3);
    let mut second = WMAStreaming::new(3);
    let last_a = a.iter().map(|&x| first.update(x)).last().unwrap();
    let last_b = b.iter().map(|&x| second.update(x)).last().unwrap();
    assert_eq!(last_a.to_bits(), last_b.to_bits());
}

#[test]
fn streaming_ppo_and_pvo_match_their_bulk_forms_exactly() {
    let data = series(&sample_series());
    let (line_p, signal_p, hist_p) = ppo(&data, 3, 7, 4);
    let (line_v, signal_v, hist_v) = pvo(&data, 3, 7, 4);
    let mut price = PPOStreaming::new(3, 7, 4);
    let mut volume = PVOStreaming::new(3, 7, 4);
    for (k, &x) in data.iter().enumerate() {
        let p = price.update(x);
        let v = volume.update(x);
        assert_eq!(p.0.to_bits(), line_p[k].to_bits());
        assert_eq!(p.1.to_bits(), signal_p[k].to_bits());
        assert_eq!(p.2.to_bits(), hist_p[k].to_bits());
        assert_eq!(v.0.to_bits(), line_v[k].to_bits());
        assert_eq!(v.1.to_bits(), signal_v[k].to_bits());
        assert_eq!(v.2.to_bits(), hist_v[k].to_bits());
    }
}
