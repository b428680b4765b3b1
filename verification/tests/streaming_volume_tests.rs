use ta_stream::fp::Fp;
use ta_stream::streaming::volume::{
    AccDistStreaming, CMFStreaming, EOMStreaming, ForceIndexStreaming, MFIStreaming,
    NVIStreaming, OBVStreaming, VPTStreaming, VWAPStreaming, VWEMAStreaming,
    VolumeRatioStreaming,
};

fn fp(x: f64) -> Fp {
    Fp::from_bits(x.to_bits())
}

fn val(x: Fp) -> f64 {
    f64::from_bits(x.to_bits())
}

#[test]
fn mfi_is_a_hundred_without_negative_flow() {
    let mut mfi = MFIStreaming::new(2);
    assert!(val(mfi.update(fp(10.0), fp(8.0), fp(9.0), fp(100.0))).is_nan());
    assert_eq!(val(mfi.update(fp(11.0), fp(9.0), fp(10.0), fp(100.0))), 100.0);
}

#[test]
fn mfi_weighs_positive_against_negative_flow() {
    let mut mfi = MFIStreaming::new(2);
    mfi.update(fp(9.0), fp(9.0), fp(9.0), fp(10.0));
    mfi.update(fp(12.0), fp(12.0), fp(12.0), fp(10.0));
    let got = val(mfi.update(fp(6.0), fp(6.0), fp(6.0), fp(10.0)));
    let ratio = 120.0 / 60.0;
    assert_eq!(got, 100.0 - (100.0 / (1.0 + ratio)));
}

#[test]
fn acc_dist_accumulates_money_flow_volume() {
    let mut ad = AccDistStreaming::new();
    assert_eq!(val(ad.update(fp(10.0), fp(8.0), fp(9.5), fp(100.0))), 0.5 * 100.0);
    assert_eq!(val(ad.update(fp(10.0), fp(10.0), fp(10.0), fp(100.0))), 50.0);
    assert_eq!(val(ad.update(fp(10.0), fp(8.0), fp(8.0), fp(10.0))), 40.0);
    ad.reset();
    assert_eq!(val(ad.update(fp(10.0), fp(8.0), fp(10.0), fp(1.0))), 1.0);
}

#[test]
fn obv_adds_and_takes_away_volume() {
    let mut obv = OBVStreaming::new();
    assert_eq!(val(obv.update(fp(10.0), fp(100.0))), 100.0);
    assert_eq!(val(obv.update(fp(11.0), fp(50.0))), 150.0);
    assert_eq!(val(obv.update(fp(10.0), fp(30.0))), 120.0);
    assert_eq!(val(obv.update(fp(10.0), fp(70.0))), 120.0);
}

#[test]
fn cmf_and_vwap_are_ratios_of_rolling_sums() {
    let mut cmf = CMFStreaming::new(2);
    let mut vwap = VWAPStreaming::new(2);
    assert!(val(cmf.update(fp(10.0), fp(8.0), fp(9.5), fp(100.0))).is_nan());
    assert!(val(vwap.update(fp(10.0), fp(8.0), fp(9.0), fp(100.0))).is_nan());
    let second = val(cmf.update(fp(12.0), fp(8.0), fp(9.0), fp(300.0)));
    assert_eq!(second, (50.0 + -0.5 * 300.0) / 400.0);
    assert_eq!(
        val(vwap.update(fp(12.0), fp(9.0), fp(12.0), fp(300.0))),
        (9.0 * 100.0 + 11.0 * 300.0) / 400.0
    );
}

#[test]
fn cmf_and_vwap_are_zero_without_volume() {
    let mut cmf = CMFStreaming::new(1);
    let mut vwap = VWAPStreaming::new(1);
    assert_eq!(val(cmf.update(fp(10.0), fp(8.0), fp(9.5), fp(0.0))), 0.0);
    assert_eq!(val(vwap.update(fp(10.0), fp(8.0), fp(9.0), fp(0.0))), 0.0);
}

#[test]
fn force_index_smooths_price_change_times_volume() {
    let mut force = ForceIndexStreaming::new(2);
    assert!(val(force.update(fp(10.0), fp(100.0))).is_nan());
    assert_eq!(val(force.update(fp(11.0), fp(100.0))), 100.0);
    let alpha = 2.0 / 3.0;
    assert_eq!(val(force.update(fp(10.0), fp(50.0))), alpha * -50.0 + (1.0 - alpha) * 100.0);
}

#[test]
fn eom_is_raw_and_undefined_without_volume() {
    let mut eom = EOMStreaming::new();
    assert!(val(eom.update(fp(10.0), fp(8.0), fp(100.0))).is_nan());
    let got = val(eom.update(fp(12.0), fp(9.0), fp(200.0)));
    assert_eq!(got, ((12.0 - 10.0) + (9.0 - 8.0)) / 2.0 * (12.0 - 9.0) / 200.0 * 100_000_000.0);
    assert!(val(eom.update(fp(13.0), fp(9.0), fp(0.0))).is_nan());
}

#[test]
fn vpt_accumulates_volume_times_relative_change() {
    let mut vpt = VPTStreaming::new();
    assert_eq!(val(vpt.update(fp(10.0), fp(100.0))), 0.0);
    assert_eq!(val(vpt.update(fp(11.0), fp(100.0))), 100.0 * ((11.0 - 10.0) / 10.0));
    let mut from_zero = VPTStreaming::new();
    from_zero.update(fp(0.0), fp(100.0));
    assert_eq!(val(from_zero.update(fp(5.0), fp(100.0))), 0.0);
}

#[test]
fn nvi_moves_only_when_volume_falls() {
    let mut nvi = NVIStreaming::new();
    assert_eq!(val(nvi.update(fp(10.0), fp(100.0))), 1000.0);
    assert_eq!(val(nvi.update(fp(11.0), fp(200.0))), 1000.0);
    assert_eq!(val(nvi.update(fp(12.1), fp(100.0))), 1000.0 * (1.0 + (12.1 - 11.0) / 11.0));
}

#[test]
fn vwema_smooths_the_volume_weighted_price() {
    let mut vwema = VWEMAStreaming::new(2, 3);
    assert!(val(vwema.update(fp(9.0), fp(9.0), fp(9.0), fp(100.0))).is_nan());
    let first = (9.0 * 100.0 + 11.0 * 300.0) / 400.0;
    assert_eq!(val(vwema.update(fp(11.0), fp(11.0), fp(11.0), fp(300.0))), first);
    let second = (11.0 * 300.0 + 13.0 * 100.0) / 400.0;
    assert_eq!(
        val(vwema.update(fp(13.0), fp(13.0), fp(13.0), fp(100.0))),
        0.5 * second + 0.5 * first
    );
}

#[test]
fn volume_ratio_is_the_volume_over_its_average() {
    let mut ratio = VolumeRatioStreaming::new(2);
    assert!(val(ratio.update(fp(100.0))).is_nan());
    assert_eq!(val(ratio.update(fp(300.0))), 300.0 / 200.0);
    let mut silent = VolumeRatioStreaming::new(1);
    assert!(val(silent.update(fp(0.0))).is_nan());
}
