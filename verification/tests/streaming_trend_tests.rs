use ta_stream::fp::Fp;
use ta_stream::streaming::trend::{
    ADXStreaming, AroonStreaming, CCIStreaming, DPOStreaming, EMAStreaming, MACDStreaming,
    PSARStreaming, SMAStreaming, TRIXStreaming, VortexStreaming, WMAStreaming,
};

fn fp(x: f64) -> Fp {
    Fp::from_bits(x.to_bits())
}

fn val(x: Fp) -> f64 {
    f64::from_bits(x.to_bits())
}

#[test]
fn sma_of_three_over_one_to_five() {
    let mut sma = SMAStreaming::new(3);
    let out: Vec<f64> = [1.0, 2.0, 3.0, 4.0, 5.0].iter().map(|&x| val(sma.update(fp(x)))).collect();
    assert!(out[0].is_nan());
    assert!(out[1].is_nan());
    assert_eq!(&out[2..], &[2.0, 3.0, 4.0]);
}

#[test]
fn sma_after_reset_replays_the_same_outputs() {
    let input = [1.5, 2.25, -3.0, 4.0, 5.5, 0.125, 7.0];
    let mut sma = SMAStreaming::new(3);
    let first: Vec<u64> = input.iter().map(|&x| sma.update(fp(x)).to_bits()).collect();
    sma.reset();
    let second: Vec<u64> = input.iter().map(|&x| sma.update(fp(x)).to_bits()).collect();
    assert_eq!(first, second);
    let mut fresh = SMAStreaming::new(3);
    let third: Vec<u64> = input.iter().map(|&x| fresh.update(fp(x)).to_bits()).collect();
    assert_eq!(first, third);
}

#[test]
fn ema_seeds_with_the_first_sample() {
    let mut ema = EMAStreaming::new(3);
    assert_eq!(val(ema.update(fp(10.0))), 10.0);
    assert_eq!(val(ema.update(fp(20.0))), 0.5 * 20.0 + 0.5 * 10.0);
    ema.reset();
    assert_eq!(val(ema.update(fp(7.0))), 7.0);
}

#[test]
fn wma_weighs_the_newest_sample_most() {
    let mut wma = WMAStreaming::new(3);
    assert!(val(wma.update(fp(1.0))).is_nan());
    assert!(val(wma.update(fp(2.0))).is_nan());
    assert_eq!(val(wma.update(fp(3.0))), (1.0 * 1.0 + 2.0 * 2.0 + 3.0 * 3.0) / 6.0);
    assert_eq!(val(wma.update(fp(4.0))), (2.0 * 1.0 + 3.0 * 2.0 + 4.0 * 3.0) / 6.0);
}

#[test]
fn macd_line_is_fast_less_slow_and_histogram_is_line_less_signal() {
    let mut macd = MACDStreaming::new(2, 4, 3);
    let (line, signal, hist) = macd.update(fp(10.0));
    assert_eq!(val(line), 0.0);
    assert_eq!(val(signal), 0.0);
    assert_eq!(val(hist), 0.0);
    let (line, signal, hist) = macd.update(fp(13.0));
    let fast = (2.0 / 3.0) * 13.0 + (1.0 - 2.0 / 3.0) * 10.0;
    let slow = 0.4 * 13.0 + (1.0 - 0.4) * 10.0;
    assert_eq!(val(line), fast - slow);
    let expected_signal = (0.0 * 0.5 + (fast - slow)) / (1.0 * 0.5 + 1.0);
    assert_eq!(val(signal), expected_signal);
    assert_eq!(val(hist), (fast - slow) - expected_signal);
}

#[test]
fn adx_reports_only_from_the_window_on() {
    let mut adx = ADXStreaming::new(3);
    let bars = [(10.0, 8.0, 9.0), (11.0, 9.0, 10.0), (12.0, 10.0, 11.0), (13.0, 11.0, 12.0)];
    let out: Vec<(f64, f64, f64)> = bars
        .iter()
        .map(|&(h, l, c)| {
            let r = adx.update(fp(h), fp(l), fp(c));
            (val(r.0), val(r.1), val(r.2))
        })
        .collect();
    assert!(out[0].0.is_nan() && out[0].1.is_nan() && out[0].2.is_nan());
    assert!(out[1].0.is_nan());
    assert_eq!(out[1].1, 100.0 * (1.0 / 2.0));
    assert_eq!(out[1].2, 0.0);
    assert_eq!(out[2].0, 100.0);
    assert_eq!(out[3].0, 100.0);
}

#[test]
fn adx_on_bars_without_range_stays_undefined() {
    let mut adx = ADXStreaming::new(2);
    for _ in 0..5 {
        let r = adx.update(fp(5.0), fp(5.0), fp(5.0));
        assert!(val(r.0).is_nan() && val(r.1).is_nan() && val(r.2).is_nan());
    }
}

#[test]
fn cci_of_a_flat_series_is_zero() {
    let mut cci = CCIStreaming::new(3, fp(0.015));
    assert!(val(cci.update(fp(100.0), fp(100.0), fp(100.0))).is_nan());
    assert!(val(cci.update(fp(100.0), fp(100.0), fp(100.0))).is_nan());
    assert_eq!(val(cci.update(fp(100.0), fp(100.0), fp(100.0))), 0.0);
    assert_eq!(val(cci.update(fp(100.0), fp(100.0), fp(100.0))), 0.0);
}

#[test]
fn cci_measures_the_distance_from_the_mean() {
    let mut cci = CCIStreaming::new(2, fp(0.5));
    cci.update(fp(1.0), fp(1.0), fp(1.0));
    let out = val(cci.update(fp(3.0), fp(3.0), fp(3.0)));
    assert_eq!(out, (3.0 - 2.0) / (0.5 * 1.0));
}

#[test]
fn dpo_takes_the_price_from_half_a_window_back() {
    let mut dpo = DPOStreaming::new(4);
    let out: Vec<f64> =
        [1.0, 2.0, 3.0, 4.0, 5.0].iter().map(|&x| val(dpo.update(fp(x)))).collect();
    assert!(out[0].is_nan() && out[1].is_nan() && out[2].is_nan());
    assert_eq!(out[3], 2.0 - 2.5);
    assert_eq!(out[4], 3.0 - 3.5);
}

#[test]
fn vortex_is_undefined_until_the_window_is_full() {
    let mut vortex = VortexStreaming::new(2);
    let r = vortex.update(fp(10.0), fp(8.0), fp(9.0));
    assert!(val(r.0).is_nan() && val(r.1).is_nan());
    let r = vortex.update(fp(11.0), fp(9.0), fp(10.0));
    assert!(val(r.0).is_nan() && val(r.1).is_nan());
    let r = vortex.update(fp(12.0), fp(10.0), fp(11.0));
    assert_eq!(val(r.0), (3.0 + 3.0) / (2.0 + 2.0));
    assert_eq!(val(r.1), (1.0 + 1.0) / (2.0 + 2.0));
}

#[test]
fn trix_is_the_percentage_change_of_the_triple_average() {
    let mut trix = TRIXStreaming::new(1);
    assert!(val(trix.update(fp(10.0))).is_nan());
    assert_eq!(val(trix.update(fp(11.0))), 100.0 * (11.0 - 10.0) / 10.0);
}

#[test]
fn aroon_counts_the_bars_since_the_most_recent_extreme() {
    let mut aroon = AroonStreaming::new(3);
    let r = aroon.update(fp(5.0), fp(1.0));
    assert!(val(r.0).is_nan() && val(r.1).is_nan());
    let r = aroon.update(fp(7.0), fp(1.0));
    assert!(val(r.0).is_nan() && val(r.1).is_nan());
    let r = aroon.update(fp(6.0), fp(2.0));
    assert_eq!(val(r.0), 50.0);
    assert_eq!(val(r.1), 50.0);
    let r = aroon.update(fp(7.0), fp(3.0));
    assert_eq!(val(r.0), 100.0);
    assert_eq!(val(r.1), 0.0);
}

#[test]
fn aroon_over_a_window_of_undefined_values_is_undefined() {
    let mut aroon = AroonStreaming::new(2);
    aroon.update(fp(f64::NAN), fp(f64::NAN));
    let r = aroon.update(fp(f64::NAN), fp(f64::NAN));
    assert!(val(r.0).is_nan() && val(r.1).is_nan());
}

#[test]
fn aroon_gives_its_first_value_at_the_window() {
    let mut aroon = AroonStreaming::new(2);
    let r = aroon.update(fp(5.0), fp(1.0));
    assert!(val(r.0).is_nan() && val(r.1).is_nan());
    let r = aroon.update(fp(7.0), fp(1.0));
    assert_eq!((val(r.0), val(r.1)), (100.0, 100.0));
    let r = aroon.update(fp(6.0), fp(2.0));
    assert_eq!((val(r.0), val(r.1)), (0.0, 0.0));
}

#[test]
fn psar_seeds_on_two_bars_then_follows_and_reverses() {
    let mut psar = PSARStreaming::new(fp(0.02), fp(0.02), fp(0.2));
    assert_eq!(val(psar.update(fp(10.0), fp(9.0), fp(9.5))), 9.5);
    assert_eq!(val(psar.update(fp(11.0), fp(10.0), fp(10.5))), 10.5);
    let third = val(psar.update(fp(12.0), fp(11.0), fp(11.5)));
    assert_eq!(third, 9.5 + 0.02 * (10.0 - 9.5));
    let fourth = val(psar.update(fp(12.5), fp(9.0), fp(9.2)));
    assert_eq!(fourth, 12.0);
    let fifth = val(psar.update(fp(9.5), fp(8.0), fp(8.5)));
    assert_eq!(fifth, 12.5);
}
