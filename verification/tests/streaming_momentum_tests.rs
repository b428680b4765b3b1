use ta_stream::fp::Fp;
use ta_stream::streaming::momentum::{
    AwesomeOscillatorStreaming, KAMAStreaming, MomentumStreaming, PPOStreaming, PVOStreaming,
    ROCStreaming, RSIStreaming, StochasticRSIStreaming, StochasticStreaming, TSIStreaming,
    UltimateOscillatorStreaming, WilliamsRStreaming,
};

fn fp(x: f64) -> Fp {
    Fp::from_bits(x.to_bits())
}

fn val(x: Fp) -> f64 {
    f64::from_bits(x.to_bits())
}

fn rsi_reference(window: usize, input: &[f64]) -> Vec<f64> {
    let alpha = 1.0 / window as f64;
    let mut prev = f64::NAN;
    let mut avg_gain = f64::NAN;
    let mut avg_loss = f64::NAN;
    let mut out = Vec::new();
    for (i, &value) in input.iter().enumerate() {
        if i == 0 {
            prev = value;
            out.push(f64::NAN);
            continue;
        }
        let change = value - prev;
        let (gain, loss) = if change > 0.0 { (change, 0.0) } else { (0.0, -change) };
        if avg_gain.is_nan() {
            avg_gain = gain;
            avg_loss = loss;
        } else {
            avg_gain = alpha * gain + (1.0 - alpha) * avg_gain;
            avg_loss = alpha * loss + (1.0 - alpha) * avg_loss;
        }
        let rsi = if avg_loss == 0.0 {
            100.0
        } else {
            100.0 - (100.0 / (1.0 + avg_gain / avg_loss))
        };
        prev = value;
        out.push(if i + 1 >= window { rsi } else { f64::NAN });
    }
    out
}

#[test]
fn rsi_of_a_rising_series_is_a_hundred_from_the_fifteenth_update() {
    let mut rsi = RSIStreaming::new(14);
    let out: Vec<f64> = (0..20).map(|i| val(rsi.update(fp(100.0 + 1.5 * i as f64)))).collect();
    for k in 0..13 {
        assert!(out[k].is_nan());
    }
    for k in 14..20 {
        assert_eq!(out[k], 100.0);
    }
}

#[test]
fn rsi_of_a_flat_series_is_a_hundred() {
    let mut rsi = RSIStreaming::new(5);
    let out: Vec<f64> = (0..12).map(|_| val(rsi.update(fp(42.5)))).collect();
    for k in 0..4 {
        assert!(out[k].is_nan());
    }
    for k in 4..12 {
        assert_eq!(out[k], 100.0);
    }
}

#[test]
fn rsi_follows_the_reference_bit_for_bit() {
    let input =
        [44.34, 44.09, 44.15, 43.61, 44.33, 44.83, 45.10, 45.42, 45.84, 46.08, 45.89, 46.03];
    let expected = rsi_reference(4, &input);
    let mut rsi = RSIStreaming::new(4);
    for (k, &x) in input.iter().enumerate() {
        let got = val(rsi.update(fp(x)));
        if expected[k].is_nan() {
            assert!(got.is_nan());
        } else {
            assert_eq!(got.to_bits(), expected[k].to_bits());
        }
    }
    rsi.reset();
    assert!(val(rsi.update(fp(1.0))).is_nan());
}

#[test]
fn stochastic_gives_fifty_on_an_empty_range() {
    let mut stochastic = StochasticStreaming::new(2, 2);
    let r = stochastic.update(fp(5.0), fp(5.0), fp(5.0));
    assert!(val(r.0).is_nan() && val(r.1).is_nan());
    let r = stochastic.update(fp(5.0), fp(5.0), fp(5.0));
    assert_eq!(val(r.0), 50.0);
    assert!(val(r.1).is_nan());
    let r = stochastic.update(fp(5.0), fp(5.0), fp(5.0));
    assert_eq!(val(r.0), 50.0);
    assert_eq!(val(r.1), 50.0);
}

#[test]
fn stochastic_places_the_close_in_the_range() {
    let mut stochastic = StochasticStreaming::new(2, 2);
    stochastic.update(fp(10.0), fp(8.0), fp(9.0));
    let r = stochastic.update(fp(12.0), fp(9.0), fp(11.0));
    assert_eq!(val(r.0), 100.0 * (11.0 - 8.0) / (12.0 - 8.0));
    assert!(val(r.1).is_nan());
    let r = stochastic.update(fp(13.0), fp(10.0), fp(10.0));
    let k2 = 100.0 * (10.0 - 9.0) / (13.0 - 9.0);
    assert_eq!(val(r.0), k2);
    assert_eq!(val(r.1), (75.0 + k2) / 2.0);
}

#[test]
fn williams_r_gives_minus_a_hundred_on_an_empty_range() {
    let mut williams = WilliamsRStreaming::new(2);
    assert!(val(williams.update(fp(5.0), fp(5.0), fp(5.0))).is_nan());
    assert_eq!(val(williams.update(fp(5.0), fp(5.0), fp(5.0))), -100.0);
    assert_eq!(val(williams.update(fp(7.0), fp(5.0), fp(6.0))), -100.0 * (7.0 - 6.0) / (7.0 - 5.0));
}

#[test]
fn roc_and_momentum_compare_with_the_oldest_sample_held() {
    let mut roc = ROCStreaming::new(3);
    let mut momentum = MomentumStreaming::new(3);
    let input = [10.0, 11.0, 12.0, 15.0];
    let r: Vec<f64> = input.iter().map(|&x| val(roc.update(fp(x)))).collect();
    let m: Vec<f64> = input.iter().map(|&x| val(momentum.update(fp(x)))).collect();
    assert!(r[0].is_nan() && r[1].is_nan() && m[0].is_nan() && m[1].is_nan());
    assert_eq!(r[2], (12.0 - 10.0) / 10.0 * 100.0);
    assert_eq!(r[3], (15.0 - 11.0) / 11.0 * 100.0);
    assert_eq!(m[2], 2.0);
    assert_eq!(m[3], 4.0);
}

#[test]
fn roc_is_zero_after_a_zero_sample() {
    let mut roc = ROCStreaming::new(2);
    roc.update(fp(0.0));
    assert_eq!(val(roc.update(fp(5.0))), 0.0);
}

#[test]
fn ppo_is_undefined_while_the_slow_average_is_zero() {
    let mut ppo = PPOStreaming::new(2, 4, 3);
    let r = ppo.update(fp(0.0));
    assert!(val(r.0).is_nan() && val(r.1).is_nan() && val(r.2).is_nan());
    let r = ppo.update(fp(10.0));
    let fast = (2.0 / 3.0) * 10.0 + (1.0 - 2.0 / 3.0) * 0.0;
    let slow = 0.4 * 10.0 + (1.0 - 0.4) * 0.0;
    let line = ((fast - slow) / slow) * 100.0;
    assert_eq!(val(r.0), line);
    assert_eq!(val(r.1), line);
    assert_eq!(val(r.2), 0.0);
}

#[test]
fn pvo_has_the_line_of_ppo_and_an_adjusted_signal() {
    let mut ppo = PPOStreaming::new(3, 6, 4);
    let mut pvo = PVOStreaming::new(3, 6, 4);
    let mut weighted = 0.0;
    let mut divisor = 0.0;
    for (k, &x) in [100.0, 130.0, 90.0, 120.0, 125.0].iter().enumerate() {
        let a = ppo.update(fp(x));
        let b = pvo.update(fp(x));
        assert_eq!(a.0.to_bits(), b.0.to_bits());
        let line = val(b.0);
        if k == 0 {
            weighted = line;
            divisor = 1.0;
            assert_eq!(val(b.1), line);
        } else {
            weighted = weighted * (1.0 - 0.4) + line;
            divisor = divisor * (1.0 - 0.4) + 1.0;
            assert_eq!(val(b.1), weighted / divisor);
        }
        assert_eq!(val(b.2), line - val(b.1));
    }
}

#[test]
fn ultimate_oscillator_blends_three_periods() {
    let mut uo = UltimateOscillatorStreaming::new(1, 2, 3);
    assert!(val(uo.update(fp(10.0), fp(8.0), fp(9.0))).is_nan());
    assert!(val(uo.update(fp(11.0), fp(9.0), fp(10.0))).is_nan());
    let got = val(uo.update(fp(12.0), fp(10.0), fp(11.0)));
    let bp = [1.0, 1.0, 1.0];
    let tr = [2.0, 2.0, 2.0];
    let avg1 = bp[2] / tr[2];
    let avg2 = (bp[1] + bp[2]) / (tr[1] + tr[2]);
    let avg3 = (bp[0] + bp[1] + bp[2]) / (tr[0] + tr[1] + tr[2]);
    assert_eq!(got, 100.0 * ((4.0 * avg1) + (2.0 * avg2) + avg3) / 7.0);
}

#[test]
fn stochastic_rsi_becomes_defined_in_all_three_values() {
    let mut unit = StochasticRSIStreaming::new(3, 3, 2, 2);
    let input = [10.0, 11.0, 10.5, 12.0, 11.0, 13.0, 12.5, 14.0, 13.0, 15.0];
    let out: Vec<(f64, f64, f64)> = input
        .iter()
        .map(|&x| {
            let r = unit.update(fp(x));
            (val(r.0), val(r.1), val(r.2))
        })
        .collect();
    for k in 0..4 {
        assert!(out[k].0.is_nan() && out[k].1.is_nan() && out[k].2.is_nan());
    }
    assert!(!out[4].0.is_nan());
    assert!(out[4].1.is_nan());
    assert!(!out[5].1.is_nan());
    assert!(out[5].2.is_nan());
    assert!(!out[6].2.is_nan());
    assert_eq!(out[5].1, (out[4].0 + out[5].0) / 2.0);
    for k in 4..10 {
        assert!(out[k].0 >= 0.0 && out[k].0 <= 1.0);
    }
}

#[test]
fn tsi_of_a_steady_rise_is_a_hundred() {
    let mut tsi = TSIStreaming::new(3, 2);
    assert!(val(tsi.update(fp(1.0))).is_nan());
    for i in 2..8 {
        assert_eq!(val(tsi.update(fp(i as f64))), 100.0);
    }
}

#[test]
fn tsi_is_undefined_without_movement() {
    let mut tsi = TSIStreaming::new(3, 2);
    for _ in 0..5 {
        assert!(val(tsi.update(fp(4.0))).is_nan());
    }
}

#[test]
fn awesome_oscillator_is_the_difference_of_two_averages_of_the_midpoint() {
    let mut ao = AwesomeOscillatorStreaming::new(1, 2);
    assert!(val(ao.update(fp(10.0), fp(8.0))).is_nan());
    assert_eq!(val(ao.update(fp(12.0), fp(10.0))), 11.0 - (9.0 + 11.0) / 2.0);
}

#[test]
fn kama_seeds_with_the_price_and_then_adapts() {
    let mut kama = KAMAStreaming::new(2, 2, 30);
    assert!(val(kama.update(fp(10.0))).is_nan());
    assert_eq!(val(kama.update(fp(11.0))), 11.0);
    let fast = 2.0 / 3.0;
    let slow = 2.0 / 31.0;
    let er: f64 = (12.0f64 - 10.0).abs() / (1.0 + 1.0);
    let sc = (er * (fast - slow) + slow) * (er * (fast - slow) + slow);
    let third = 11.0 + sc * (12.0 - 11.0);
    assert_eq!(val(kama.update(fp(12.0))), third);
    let er: f64 = (11.0f64 - 11.0).abs() / (1.0 + 1.0);
    let sc = (er * (fast - slow) + slow) * (er * (fast - slow) + slow);
    assert_eq!(val(kama.update(fp(11.0))), third + sc * (11.0 - third));
}

#[test]
fn kama_of_one_two_three_seeds_at_the_second_price() {
    let mut kama = KAMAStreaming::new(2, 2, 30);
    assert!(val(kama.update(fp(1.0))).is_nan());
    assert_eq!(val(kama.update(fp(2.0))), 2.0);
    assert!((val(kama.update(fp(3.0))) - 2.4444444444).abs() < 1e-9);
}

#[test]
fn kama_of_a_flat_series_has_no_volatility_and_stays_put() {
    let mut kama = KAMAStreaming::new(2, 2, 30);
    assert!(val(kama.update(fp(5.0))).is_nan());
    assert_eq!(val(kama.update(fp(5.0))), 5.0);
    assert_eq!(val(kama.update(fp(5.0))), 5.0);
    assert_eq!(val(kama.update(fp(5.0))), 5.0);
}
