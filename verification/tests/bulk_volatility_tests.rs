use ta_stream::fp::Fp;
use ta_stream::volatility::{atr, bollinger_bands, donchian_channel, keltner_channel, ulcer_index};

fn fp(x: f64) -> Fp {
    Fp::from_bits(x.to_bits())
}

fn series(xs: &[f64]) -> Vec<Fp> {
    xs.iter().map(|&x| fp(x)).collect()
}

fn values(xs: &[Fp]) -> Vec<f64> {
    xs.iter().map(|&x| f64::from_bits(x.to_bits())).collect()
}

fn same(got: &[f64], expected: &[f64]) {
    assert_eq!(got.len(), expected.len());
    for k in 0..got.len() {
        if expected[k].is_nan() {
            assert!(got[k].is_nan(), "position {}: {} is not undefined", k, got[k]);
        } else {
            assert_eq!(got[k].to_bits(), expected[k].to_bits(), "position {}", k);
        }
    }
}

#[test]
fn bulk_atr_seeds_with_the_mean_true_range() {
    let high = series(&[10.0, 12.0, 11.0, 13.0]);
    let low = series(&[8.0, 9.0, 10.0, 11.0]);
    let close = series(&[9.0, 11.0, 10.5, 12.5]);
    let got = values(&atr(&high, &low, &close, 3));
    let seed = (2.0 + 3.0 + 1.0) / 3.0;
    let alpha = 1.0 / 3.0;
    same(&got, &[f64::NAN, f64::NAN, seed, 2.5 * alpha + seed * (1.0 - alpha)]);
}

#[test]
fn bulk_atr_of_a_flat_series_is_zero() {
    let flat = series(&[3.5; 6]);
    let nan = f64::NAN;
    same(&values(&atr(&flat, &flat, &flat, 2)), &[nan, 0.0, 0.0, 0.0, 0.0, 0.0]);
}

#[test]
fn bulk_bollinger_bands_lie_around_the_mean() {
    let (upper, middle, lower) = bollinger_bands(&series(&[1.0, 2.0, 3.0, 4.0]), 3, fp(2.0));
    let std = (2.0f64 / 3.0).sqrt();
    let nan = f64::NAN;
    same(&values(&middle), &[nan, nan, 2.0, 3.0]);
    same(&values(&upper), &[nan, nan, 2.0 + 2.0 * std, 3.0 + 2.0 * std]);
    same(&values(&lower), &[nan, nan, 2.0 - 2.0 * std, 3.0 - 2.0 * std]);
}

#[test]
fn bulk_bollinger_bands_of_a_flat_series_have_no_width() {
    let (upper, middle, lower) = bollinger_bands(&series(&[100.0; 5]), 3, fp(2.0));
    let nan = f64::NAN;
    same(&values(&upper), &[nan, nan, 100.0, 100.0, 100.0]);
    same(&values(&middle), &[nan, nan, 100.0, 100.0, 100.0]);
    same(&values(&lower), &[nan, nan, 100.0, 100.0, 100.0]);
}

#[test]
fn keltner_channel_averages_the_price_blends_from_the_first_bar() {
    let high = series(&[10.0, 13.0]);
    let low = series(&[7.0, 10.0]);
    let close = series(&[9.0, 12.0]);
    let (upper, middle, lower) = keltner_channel(&high, &low, &close, 2, 10, fp(2.0));
    let up0 = (4.0 * 10.0 - 2.0 * 7.0 + 9.0) / 3.0;
    let up1 = (4.0 * 13.0 - 2.0 * 10.0 + 12.0) / 3.0;
    let lo0 = (-2.0 * 10.0 + 4.0 * 7.0 + 9.0) / 3.0;
    let lo1 = (-2.0 * 13.0 + 4.0 * 10.0 + 12.0) / 3.0;
    same(&values(&upper), &[up0 / 1.0, (up0 + up1) / 2.0]);
    same(&values(&lower), &[lo0 / 1.0, (lo0 + lo1) / 2.0]);
    let tp0: f64 = (10.0 + 7.0 + 9.0) / 3.0;
    let tp1: f64 = (13.0 + 10.0 + 12.0) / 3.0;
    same(&values(&middle), &[f64::NAN, (tp0 + tp1) / 2.0]);
}

#[test]
fn donchian_channel_follows_the_extremes() {
    let high = series(&[10.0, 12.0, 11.0]);
    let low = series(&[8.0, 9.0, 10.0]);
    let (upper, middle, lower) = donchian_channel(&high, &low, 2);
    let nan = f64::NAN;
    same(&values(&upper), &[nan, 12.0, 12.0]);
    same(&values(&lower), &[nan, 8.0, 9.0]);
    same(&values(&middle), &[nan, 10.0, 10.5]);
}

#[test]
fn bulk_ulcer_index_is_the_root_mean_square_drawdown() {
    let got = values(&ulcer_index(&series(&[10.0, 8.0, 9.0, 12.0]), 3));
    let d1: f64 = ((8.0 - 10.0) / 10.0) * 100.0;
    let d2: f64 = ((9.0 - 10.0) / 10.0) * 100.0;
    assert!(got[0].is_nan() && got[1].is_nan());
    assert_eq!(got[2], ((0.0 + d1 * d1 + d2 * d2) / 3.0).sqrt());
    assert_eq!(got[3], ((d1 * d1 + d2 * d2 + 0.0) / 3.0).sqrt());
    same(&values(&ulcer_index(&series(&[1.0, 2.0]), 0)), &[f64::NAN; 2]);
    same(&values(&ulcer_index(&series(&[1.0, 2.0]), 3)), &[f64::NAN; 2]);
}
