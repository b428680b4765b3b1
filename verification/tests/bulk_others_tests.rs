use ta_stream::fp::Fp;
use ta_stream::others::{
    compound_log_return, cumulative_return, daily_log_return, daily_return,
    linear_regression_slope, rolling_percentile, rolling_zscore,
};

fn fp(x: f64) -> Fp {
    Fp::from_bits(x.to_bits())
}

fn series(xs: &[f64]) -> Vec<Fp> {
    xs.iter().map(|&x| fp(x)).collect()
}

fn values(xs: &[Fp]) -> Vec<f64> {
    xs.iter().map(|&x| f64::from_bits(x.to_bits())).collect()
}

fn same(got: &[f64], expected: &[f64]) {
    assert_eq!(got.len(), expected.len());
    for k in 0..got.len() {
        if expected[k].is_nan() {
            assert!(got[k].is_nan(), "position {}: {} is not undefined", k, got[k]);
        } else {
            assert_eq!(got[k].to_bits(), expected[k].to_bits(), "position {}", k);
        }
    }
}

#[test]
fn bulk_returns_of_a_short_series() {
    let close = series(&[100.0, 110.0, 99.0]);
    same(
        &values(&daily_return(&close)),
        &[f64::NAN, (110.0 - 100.0) / 100.0 * 100.0, (99.0 - 110.0) / 110.0 * 100.0],
    );
    same(
        &values(&cumulative_return(&close)),
        &[0.0, ((110.0 / 100.0) - 1.0) * 100.0, ((99.0 / 100.0) - 1.0) * 100.0],
    );
    let log = values(&daily_log_return(&close));
    assert!(log[0].is_nan());
    assert!((log[1] - (1.1f64).ln() * 100.0).abs() < 1e-12);
    let compound = values(&compound_log_return(&close));
    assert!(compound[0].is_nan());
    assert!((compound[1] - 10.0).abs() < 1e-11);
    assert!((compound[2] - -1.0).abs() < 1e-11);
}

#[test]
fn bulk_cumulative_return_from_zero_is_undefined() {
    same(&values(&cumulative_return(&series(&[0.0, 5.0]))), &[f64::NAN, f64::NAN]);
    assert!(cumulative_return(&[]).is_empty());
}

#[test]
fn bulk_compound_log_return_passes_over_prices_that_are_not_positive() {
    let got = values(&compound_log_return(&series(&[100.0, 0.0, 50.0, 55.0])));
    assert!(got[0].is_nan() && got[1].is_nan() && got[2].is_nan());
    assert!((got[3] - 10.0).abs() < 1e-11);
}

#[test]
fn bulk_zscore_slope_and_percentile() {
    let data = series(&[1.0, 2.0, 3.0, 3.0, 3.0]);
    let z = values(&rolling_zscore(&data, 3));
    assert!(z[0].is_nan() && z[1].is_nan());
    assert_eq!(z[2], (3.0 - 2.0) / (2.0f64 / 3.0).sqrt());
    assert_eq!(z[4], 0.0);
    let slope = values(&linear_regression_slope(&series(&[3.0, 5.0, 7.0, 9.0, 10.0]), 4));
    assert!(slope[2].is_nan());
    assert_eq!(slope[3], 2.0);
    same(&values(&linear_regression_slope(&data, 1)), &[f64::NAN; 5]);
    same(&values(&linear_regression_slope(&data, 0)), &[f64::NAN; 5]);
    let pct = values(&rolling_percentile(&series(&[3.0, 1.0, 4.0, 2.0, 5.0]), 4));
    same(&pct, &[f64::NAN, f64::NAN, f64::NAN, 0.5, 1.0]);
}
