use ta_stream::fp::Fp;
use ta_stream::streaming::volatility::{
    ATRStreaming, BollingerBandsStreaming, DonchianChannelStreaming,
    HistoricalVolatilityStreaming, KeltnerChannelStreaming, RangeStreaming,
    StandardDeviationStreaming, UlcerIndexStreaming, VarianceStreaming,
};

fn fp(x: f64) -> Fp {
    Fp::from_bits(x.to_bits())
}

fn val(x: Fp) -> f64 {
    f64::from_bits(x.to_bits())
}

#[test]
fn true_range_of_two_bars() {
    let mut atr = ATRStreaming::new(1);
    assert_eq!(val(atr.update(fp(10.0), fp(8.0), fp(9.0))), 2.0);
    let alpha = 1.0;
    let expected = (1.0 - alpha) * 2.0 + alpha * 3.0;
    assert_eq!(val(atr.update(fp(12.0), fp(9.0), fp(11.0))), expected);
}

#[test]
fn atr_smooths_the_true_range_and_reports_from_the_window_on() {
    let mut atr = ATRStreaming::new(3);
    assert!(val(atr.update(fp(10.0), fp(8.0), fp(9.0))).is_nan());
    assert!(val(atr.update(fp(12.0), fp(9.0), fp(11.0))).is_nan());
    let alpha = 1.0 / 3.0;
    let second = (1.0 - alpha) * 2.0 + alpha * 3.0;
    let third = (1.0 - alpha) * second + alpha * 1.0;
    assert_eq!(val(atr.update(fp(11.0), fp(10.0), fp(10.5))), third);
}

#[test]
fn atr_of_a_flat_series_is_zero() {
    let mut atr = ATRStreaming::new(3);
    let out: Vec<f64> = (0..8).map(|_| val(atr.update(fp(7.25), fp(7.25), fp(7.25)))).collect();
    assert!(out[0].is_nan() && out[1].is_nan());
    for k in 2..8 {
        assert_eq!(out[k], 0.0);
    }
}

#[test]
fn bollinger_bands_lie_around_the_mean() {
    let mut bands = BollingerBandsStreaming::new(3, fp(2.0));
    for &x in [1.0, 2.0].iter() {
        let r = bands.update(fp(x));
        assert!(val(r.0).is_nan() && val(r.1).is_nan() && val(r.2).is_nan());
    }
    let r = bands.update(fp(3.0));
    let std = (2.0f64 / 3.0).sqrt();
    assert_eq!(val(r.1), 2.0);
    assert_eq!(val(r.0), 2.0 + 2.0 * std);
    assert_eq!(val(r.2), 2.0 - 2.0 * std);
}

#[test]
fn bollinger_bands_of_a_flat_series_have_no_width() {
    let mut bands = BollingerBandsStreaming::new(4, fp(2.0));
    for k in 0..10 {
        let r = bands.update(fp(100.0));
        if k >= 3 {
            assert_eq!(val(r.0), 100.0);
            assert_eq!(val(r.1), 100.0);
            assert_eq!(val(r.2), 100.0);
        }
    }
}

#[test]
fn deviation_and_variance_of_a_flat_series_are_zero() {
    let mut std = StandardDeviationStreaming::new(4);
    let mut variance = VarianceStreaming::new(4);
    for k in 0..10 {
        let s = val(std.update(fp(100.0)));
        let v = val(variance.update(fp(100.0)));
        if k >= 3 {
            assert_eq!(s, 0.0);
            assert_eq!(v, 0.0);
        } else {
            assert!(s.is_nan() && v.is_nan());
        }
    }
}

#[test]
fn deviation_is_the_root_of_the_variance() {
    let mut std = StandardDeviationStreaming::new(3);
    let mut variance = VarianceStreaming::new(3);
    for &x in [1.0, 2.0, 3.0, 5.0].iter() {
        let s = val(std.update(fp(x)));
        let v = val(variance.update(fp(x)));
        if !v.is_nan() {
            assert_eq!(s, v.sqrt());
        }
    }
    assert_eq!(val(variance.update(fp(5.0))), {
        let mean = (3.0 + 5.0 + 5.0) / 3.0;
        let d: [f64; 3] = [3.0 - mean, 5.0 - mean, 5.0 - mean];
        (d[0] * d[0] + d[1] * d[1] + d[2] * d[2]) / 3.0
    });
}

#[test]
fn keltner_channel_lies_around_the_average_of_the_close() {
    let mut keltner = KeltnerChannelStreaming::new(3, 2, fp(2.0));
    let r = keltner.update(fp(10.0), fp(8.0), fp(9.0));
    assert!(val(r.0).is_nan() && val(r.1).is_nan() && val(r.2).is_nan());
    let r = keltner.update(fp(12.0), fp(9.0), fp(11.0));
    let ema = 0.5 * 11.0 + 0.5 * 9.0;
    let atr = 0.5 * 2.0 + 0.5 * 3.0;
    assert_eq!(val(r.1), ema);
    assert_eq!(val(r.0), ema + 2.0 * atr);
    assert_eq!(val(r.2), ema - 2.0 * atr);
}

#[test]
fn donchian_channel_and_range_follow_the_extremes() {
    let mut donchian = DonchianChannelStreaming::new(2);
    let mut range = RangeStreaming::new(2);
    let r = donchian.update(fp(10.0), fp(8.0));
    assert!(val(r.0).is_nan() && val(r.1).is_nan() && val(r.2).is_nan());
    assert!(val(range.update(fp(10.0), fp(8.0))).is_nan());
    let r = donchian.update(fp(12.0), fp(9.0));
    assert_eq!((val(r.0), val(r.1), val(r.2)), (12.0, 10.0, 8.0));
    assert_eq!(val(range.update(fp(12.0), fp(9.0))), 4.0);
    let r = donchian.update(fp(11.0), fp(10.0));
    assert_eq!((val(r.0), val(r.1), val(r.2)), (12.0, 10.5, 9.0));
    assert_eq!(val(range.update(fp(11.0), fp(10.0))), 3.0);
}

#[test]
fn ulcer_index_is_the_root_mean_square_drawdown() {
    let mut ulcer = UlcerIndexStreaming::new(3);
    assert!(val(ulcer.update(fp(10.0))).is_nan());
    assert!(val(ulcer.update(fp(8.0))).is_nan());
    let got = val(ulcer.update(fp(9.0)));
    let d1: f64 = ((8.0 - 10.0) / 10.0) * 100.0;
    let d2: f64 = ((9.0 - 10.0) / 10.0) * 100.0;
    assert_eq!(got, ((0.0 + d1 * d1 + d2 * d2) / 3.0).sqrt());
}

#[test]
fn ulcer_index_of_a_rising_series_is_zero() {
    let mut ulcer = UlcerIndexStreaming::new(3);
    ulcer.update(fp(1.0));
    ulcer.update(fp(2.0));
    assert_eq!(val(ulcer.update(fp(3.0))), 0.0);
}

#[test]
fn historical_volatility_needs_a_window_of_returns() {
    let mut plain = HistoricalVolatilityStreaming::new(2, false);
    let mut annual = HistoricalVolatilityStreaming::new(2, true);
    let input = [100.0, 110.0, 99.0, 108.9];
    let mut last = (f64::NAN, f64::NAN);
    for (k, &x) in input.iter().enumerate() {
        last = (val(plain.update(fp(x))), val(annual.update(fp(x))));
        if k < 2 {
            assert!(last.0.is_nan() && last.1.is_nan());
        }
    }
    let r1 = (99.0f64 / 110.0).ln();
    let r2 = (108.9f64 / 99.0).ln();
    let mean = (r1 + r2) / 2.0;
    let expected = (((r1 - mean) * (r1 - mean) + (r2 - mean) * (r2 - mean)) / 1.0).sqrt();
    assert!((last.0 - expected).abs() < 1e-12);
    assert!((last.1 - expected * 252.0f64.sqrt()).abs() < 1e-11);
}

#[test]
fn historical_volatility_passes_over_prices_that_are_not_positive() {
    let mut unit = HistoricalVolatilityStreaming::new(2, false);
    assert!(val(unit.update(fp(100.0))).is_nan());
    assert!(val(unit.update(fp(0.0))).is_nan());
    assert!(val(unit.update(fp(-5.0))).is_nan());
    assert!(val(unit.update(fp(10.0))).is_nan());
    assert!(val(unit.update(fp(11.0))).is_nan());
    assert!(!val(unit.update(fp(12.0))).is_nan());
}
