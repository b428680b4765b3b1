use ta_stream::fp::Fp;
use ta_stream::volume::{
    acc_dist_index, chaikin_money_flow, eom, force_index, mfi, nvi, obv, volume_ratio, vpt, vwap,
    vwema,
};

fn fp(x: f64) -> Fp {
    Fp::from_bits(x.to_bits())
}

fn series(xs: &[f64]) -> Vec<Fp> {
    xs.iter().map(|&x| fp(x)).collect()
}

fn values(xs: &[Fp]) -> Vec<f64> {
    xs.iter().map(|&x| f64::from_bits(x.to_bits())).collect()
}

fn same(got: &[f64], expected: &[f64]) {
    assert_eq!(got.len(), expected.len());
    for k in 0..got.len() {
        if expected[k].is_nan() {
            assert!(got[k].is_nan(), "position {}: {} is not undefined", k, got[k]);
        } else {
            assert_eq!(got[k].to_bits(), expected[k].to_bits(), "position {}", k);
        }
    }
}

#[test]
fn bulk_mfi_weighs_positive_against_negative_flow() {
    let price = series(&[9.0, 12.0, 6.0, 6.0]);
    let volume = series(&[10.0, 10.0, 10.0, 10.0]);
    let got = values(&mfi(&price, &price, &price, &volume, 2));
    same(
        &got,
        &[
            f64::NAN,
            100.0,
            100.0 - (100.0 / (1.0 + 120.0 / 60.0)),
            100.0 - (100.0 / (1.0 + 0.0 / 60.0)),
        ],
    );
    same(&values(&mfi(&price, &price, &price, &volume, 0)), &[f64::NAN; 4]);
}

#[test]
fn bulk_acc_dist_and_cmf_use_the_close_location() {
    let high = series(&[10.0, 12.0, 10.0]);
    let low = series(&[8.0, 8.0, 10.0]);
    let close = series(&[9.5, 9.0, 10.0]);
    let volume = series(&[100.0, 300.0, 50.0]);
    same(&values(&acc_dist_index(&high, &low, &close, &volume)), &[50.0, 50.0 - 150.0, -100.0]);
    same(
        &values(&chaikin_money_flow(&high, &low, &close, &volume, 2)),
        &[f64::NAN, (50.0 - 150.0) / 400.0, (-150.0 + 0.0) / 350.0],
    );
    assert!(acc_dist_index(&[], &[], &[], &[]).is_empty());
}

#[test]
fn bulk_obv_adds_volume_unless_the_close_fell() {
    let close = series(&[10.0, 11.0, 10.0, 10.0]);
    let volume = series(&[100.0, 50.0, 30.0, 70.0]);
    same(&values(&obv(&close, &volume)), &[100.0, 150.0, 120.0, 190.0]);
    assert!(obv(&[], &[]).is_empty());
}

#[test]
fn bulk_force_index_smooths_the_raw_force() {
    let close = series(&[10.0, 11.0, 10.0]);
    let volume = series(&[100.0, 100.0, 50.0]);
    let alpha = 2.0 / 3.0;
    let second = alpha * 100.0 + (1.0 - alpha) * 0.0;
    same(
        &values(&force_index(&close, &volume, 2)),
        &[0.0, second, alpha * -50.0 + (1.0 - alpha) * second],
    );
}

#[test]
fn bulk_eom_is_raw() {
    let high = series(&[10.0, 12.0, 13.0]);
    let low = series(&[8.0, 9.0, 9.0]);
    let volume = series(&[100.0, 200.0, 0.0]);
    same(
        &values(&eom(&high, &low, &volume, 14)),
        &[
            f64::NAN,
            ((12.0 - 10.0) + (9.0 - 8.0)) / 2.0 * (12.0 - 9.0) / 200.0 * 100_000_000.0,
            f64::NAN,
        ],
    );
}

#[test]
fn bulk_vpt_and_nvi_accumulate_relative_changes() {
    let close = series(&[10.0, 11.0, 12.1]);
    let volume = series(&[100.0, 200.0, 100.0]);
    let c1 = (11.0 - 10.0) / 10.0;
    let c2 = (12.1 - 11.0) / 11.0;
    let first = 100.0 * 0.0;
    let second = first + 200.0 * c1;
    same(&values(&vpt(&close, &volume)), &[first, second, second + 100.0 * c2]);
    same(&values(&nvi(&close, &volume)), &[1000.0, 1000.0, 1000.0 * (1.0 + c2)]);
}

#[test]
fn bulk_vwap_is_undefined_without_volume_and_vwema_falls_back_to_the_mean() {
    let price = series(&[9.0, 11.0, 13.0]);
    let volume = series(&[100.0, 300.0, 100.0]);
    same(
        &values(&vwap(&price, &price, &price, &volume, 2)),
        &[f64::NAN, (9.0 * 100.0 + 11.0 * 300.0) / 400.0, (11.0 * 300.0 + 13.0 * 100.0) / 400.0],
    );
    let silent = series(&[0.0, 0.0, 0.0]);
    same(&values(&vwap(&price, &price, &price, &silent, 2)), &[f64::NAN; 3]);
    let got = values(&vwema(&price, &price, &price, &silent, 1, 3));
    assert_eq!(got[0], 9.0);
    assert_eq!(got[1], (9.0 * 0.5 + 11.0) / 1.5);
}

#[test]
fn bulk_volume_ratio_is_the_volume_over_its_average() {
    let volume = series(&[100.0, 300.0, 0.0, 0.0]);
    same(&values(&volume_ratio(&volume, 2)), &[f64::NAN, 300.0 / 200.0, 0.0 / 150.0, f64::NAN]);
}
