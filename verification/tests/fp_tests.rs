use ta_stream::fp::Fp;

fn fp(x: f64) -> Fp {
    Fp::from_bits(x.to_bits())
}

fn val(x: Fp) -> f64 {
    f64::from_bits(x.to_bits())
}

#[test]
fn arithmetic_matches_native_doubles() {
    let samples = [0.0, -0.0, 1.0, -1.5, 3.25, 0.1, 1e300, -1e-300, 7.0, 100.0, 2.5e-5];
    for &a in samples.iter() {
        for &b in samples.iter() {
            assert_eq!(val(fp(a).add(fp(b))).to_bits(), (a + b).to_bits());
            assert_eq!(val(fp(a).sub(fp(b))).to_bits(), (a - b).to_bits());
            assert_eq!(val(fp(a).mul(fp(b))).to_bits(), (a * b).to_bits());
            if b != 0.0 {
                assert_eq!(val(fp(a).div(fp(b))).to_bits(), (a / b).to_bits());
            }
            assert_eq!(fp(a).lt(fp(b)), a < b);
            assert_eq!(fp(a).le(fp(b)), a <= b);
            assert_eq!(fp(a).gt(fp(b)), a > b);
            assert_eq!(fp(a).ge(fp(b)), a >= b);
            assert_eq!(fp(a).eq(fp(b)), a == b);
            assert_eq!(fp(a).ne(fp(b)), a != b);
        }
        assert_eq!(val(fp(a).abs()).to_bits(), a.abs().to_bits());
        assert_eq!(val(fp(a).neg()).to_bits(), (-a).to_bits());
    }
}

#[test]
fn square_root_matches_native_doubles() {
    let samples = [0.0, 1.0, 2.0, 0.6666666666666666, 252.0, 1e-10, 1e300];
    for &a in samples.iter() {
        assert_eq!(val(fp(a).sqrt()).to_bits(), a.sqrt().to_bits());
    }
    assert!(fp(-1.0).sqrt().is_nan());
}

#[test]
fn nan_is_unordered_and_loses_in_max_and_min() {
    let nan = fp(f64::NAN);
    assert!(nan.is_nan());
    assert!(!nan.eq(nan));
    assert!(nan.ne(nan));
    assert!(!nan.lt(fp(1.0)));
    assert!(!fp(1.0).lt(nan));
    assert_eq!(val(nan.max(fp(2.0))), 2.0);
    assert_eq!(val(fp(2.0).max(nan)), 2.0);
    assert_eq!(val(nan.min(fp(2.0))), 2.0);
    assert_eq!(val(fp(2.0).min(nan)), 2.0);
    assert_eq!(val(fp(3.0).max(fp(2.0))), 3.0);
    assert_eq!(val(fp(3.0).min(fp(2.0))), 2.0);
    assert_eq!(val(fp(f64::NEG_INFINITY).max(fp(-5.0))), -5.0);
    assert_eq!(val(fp(f64::INFINITY).min(fp(-5.0))), -5.0);
}

#[test]
fn integers_convert_as_a_cast_does() {
    let samples: [u64; 14] = [
        0, 1, 2, 3, 14, 20, 252, 1 << 31, (1 << 52) - 1, 1 << 52, (1 << 53) - 1,
        (1 << 53) + 1, u64::MAX - 1025, u64::MAX,
    ];
    for &n in samples.iter() {
        assert_eq!(Fp::from_u64(n).to_bits(), (n as f64).to_bits());
    }
    assert_eq!(Fp::from_usize(14).to_bits(), 14.0f64.to_bits());
}

#[test]
fn logarithm_and_exponential_are_close_to_native() {
    let samples = [1.0, 1.01, 0.99, 2.0, 10.0, 0.5];
    for &a in samples.iter() {
        assert!((val(fp(a).ln()) - a.ln()).abs() < 1e-15);
        assert!((val(fp(a.ln()).exp()) - a).abs() < 1e-14);
    }
}

const SIGN: u64 = 0x8000_0000_0000_0000;
const INF: u64 = 0x7ff0_0000_0000_0000;

fn special_patterns() -> Vec<u64> {
    vec![
        0,
        SIGN,
        1,
        SIGN | 1,
        0x000f_ffff_ffff_ffff,
        0x0010_0000_0000_0000,
        1.0f64.to_bits(),
        (-1.0f64).to_bits(),
        0.1f64.to_bits(),
        (-0.1f64).to_bits(),
        100.0f64.to_bits(),
        f64::MAX.to_bits(),
        f64::MIN.to_bits(),
        INF,
        SIGN | INF,
        f64::NAN.to_bits(),
        SIGN | f64::NAN.to_bits(),
        INF | 1,
    ]
}

fn mag(a: u64) -> u64 {
    a & !SIGN
}

fn is_zero(a: u64) -> bool {
    mag(a) == 0
}

fn is_nan(a: u64) -> bool {
    mag(a) > INF
}

fn is_finite(a: u64) -> bool {
    mag(a) < INF
}

fn signed_zero(a: u64, b: u64) -> u64 {
    (a ^ b) & SIGN
}

#[test]
fn sums_of_zeros_and_of_opposites_follow_the_stated_rules() {
    for &a in special_patterns().iter() {
        for &b in special_patterns().iter() {
            let sum = Fp::from_bits(a).add(Fp::from_bits(b)).to_bits();
            if is_zero(a) && is_zero(b) {
                assert_eq!(sum, if a == SIGN && b == SIGN { SIGN } else { 0 });
            } else if is_zero(a) && !is_nan(b) {
                assert_eq!(sum, b);
            } else if is_zero(b) && !is_nan(a) {
                assert_eq!(sum, a);
            } else if is_finite(a) && b == a ^ SIGN {
                assert_eq!(sum, 0);
            }
            let diff = Fp::from_bits(a).sub(Fp::from_bits(b)).to_bits();
            assert_eq!(diff, Fp::from_bits(a).add(Fp::from_bits(b ^ SIGN)).to_bits());
            if is_finite(a) && a == b {
                assert_eq!(diff, 0);
            }
            let native_sum = f64::from_bits(a) + f64::from_bits(b);
            let native_diff = f64::from_bits(a) - f64::from_bits(b);
            if native_sum.is_nan() {
                assert!(is_nan(sum));
            } else {
                assert_eq!(sum, native_sum.to_bits());
            }
            if native_diff.is_nan() {
                assert!(is_nan(diff));
            } else {
                assert_eq!(diff, native_diff.to_bits());
            }
        }
    }
}

#[test]
fn products_and_quotients_of_zeros_follow_the_stated_rules() {
    for &a in special_patterns().iter() {
        for &b in special_patterns().iter() {
            let prod = Fp::from_bits(a).mul(Fp::from_bits(b)).to_bits();
            if (is_zero(a) && is_finite(b)) || (is_zero(b) && is_finite(a)) {
                assert_eq!(prod, signed_zero(a, b));
            }
            let quot = Fp::from_bits(a).div(Fp::from_bits(b)).to_bits();
            if is_zero(a) && !is_zero(b) && !is_nan(b) {
                assert_eq!(quot, signed_zero(a, b));
            }
            let native_prod = f64::from_bits(a) * f64::from_bits(b);
            let native_quot = f64::from_bits(a) / f64::from_bits(b);
            if native_prod.is_nan() {
                assert!(is_nan(prod));
            } else {
                assert_eq!(prod, native_prod.to_bits());
            }
            if native_quot.is_nan() {
                assert!(is_nan(quot));
            } else {
                assert_eq!(quot, native_quot.to_bits());
            }
        }
    }
}

#[test]
fn a_zero_is_its_own_square_root() {
    assert_eq!(Fp::from_bits(0).sqrt().to_bits(), 0);
    assert_eq!(Fp::from_bits(SIGN).sqrt().to_bits(), SIGN);
    assert_eq!(Fp::from_bits(INF).sqrt().to_bits(), INF);
    assert!(Fp::from_bits(f64::NAN.to_bits()).sqrt().is_nan());
}

#[test]
fn sign_and_class_tests_read_the_bit_pattern() {
    for &a in special_patterns().iter() {
        let x = f64::from_bits(a);
        assert_eq!(Fp::from_bits(a).is_nan(), x.is_nan());
        assert_eq!(Fp::from_bits(a).is_infinite(), x.is_infinite());
        assert_eq!(Fp::from_bits(a).abs().to_bits(), x.abs().to_bits());
        assert_eq!(Fp::from_bits(a).neg().to_bits(), (-x).to_bits());
        for &b in special_patterns().iter() {
            let y = f64::from_bits(b);
            assert_eq!(Fp::from_bits(a).lt(Fp::from_bits(b)), x < y);
            assert_eq!(Fp::from_bits(a).le(Fp::from_bits(b)), x <= y);
            assert_eq!(Fp::from_bits(a).gt(Fp::from_bits(b)), x > y);
            assert_eq!(Fp::from_bits(a).ge(Fp::from_bits(b)), x >= y);
            assert_eq!(Fp::from_bits(a).eq(Fp::from_bits(b)), x == y);
            assert_eq!(Fp::from_bits(a).ne(Fp::from_bits(b)), x != y);
            let hi = Fp::from_bits(a).max(Fp::from_bits(b));
            let lo = Fp::from_bits(a).min(Fp::from_bits(b));
            if x.is_nan() && y.is_nan() {
                assert!(hi.is_nan() && lo.is_nan());
            } else {
                assert!(f64::from_bits(hi.to_bits()) == x.max(y));
                assert!(f64::from_bits(lo.to_bits()) == x.min(y));
            }
        }
    }
}

fn next_pattern(state: &mut u64) -> u64 {
    *state = state.wrapping_mul(6364136223846793005).wrapping_add(1442695040888963407);
    let mut x = *state;
    x ^= x >> 33;
    x = x.wrapping_mul(0xff51_afd7_ed55_8ccd);
    x ^= x >> 33;
    x
}

fn agrees(got: u64, native: f64) -> bool {
    if native.is_nan() {
        is_nan(got)
    } else {
        got == native.to_bits()
    }
}

/// Products and quotients that fall among the subnormal numbers, or below
/// them, may be rounded to a neighbouring pattern.
fn agrees_above_subnormals(got: u64, native: f64) -> bool {
    let smallest_normal = f64::MIN_POSITIVE.to_bits();
    if !native.is_nan() && mag(got) < smallest_normal && mag(native.to_bits()) < smallest_normal {
        let distance = if got > native.to_bits() {
            got - native.to_bits()
        } else {
            native.to_bits() - got
        };
        distance <= 1
    } else {
        agrees(got, native)
    }
}

#[test]
fn rounded_arithmetic_agrees_with_native_doubles_on_many_patterns() {
    let mut state = 0x1234_5678_9abc_def0u64;
    for round in 0..60_000 {
        let mut a = next_pattern(&mut state);
        let mut b = next_pattern(&mut state);
        if round % 3 == 1 {
            // keep the exponents close, so that sums and differences do not
            // simply return the larger operand
            b = (a & 0xfff0_0000_0000_0000) | (b & 0x800f_ffff_ffff_ffff);
        }
        if round % 7 == 2 {
            a &= 0x800f_ffff_ffff_ffff;
        }
        let (x, y) = (f64::from_bits(a), f64::from_bits(b));
        let (fa, fb) = (Fp::from_bits(a), Fp::from_bits(b));
        assert!(agrees(fa.add(fb).to_bits(), x + y));
        assert!(agrees(fa.sub(fb).to_bits(), x - y));
        assert!(
            agrees_above_subnormals(fa.mul(fb).to_bits(), x * y),
            "{:#x} * {:#x}: {:#x} against {:#x}",
            a,
            b,
            fa.mul(fb).to_bits(),
            (x * y).to_bits()
        );
        assert!(
            agrees_above_subnormals(fa.div(fb).to_bits(), x / y),
            "{:#x} / {:#x}: {:#x} against {:#x}",
            a,
            b,
            fa.div(fb).to_bits(),
            (x / y).to_bits()
        );
        assert!(agrees(fa.sqrt().to_bits(), x.sqrt()));
        assert_eq!(fa.lt(fb), x < y);
        assert_eq!(fa.eq(fb), x == y);
        if is_finite(a) {
            assert_eq!(fa.sub(fa).to_bits(), 0);
            assert_eq!(fa.add(fa.neg()).to_bits(), 0);
            assert_eq!(fa.mul(Fp::from_bits(0)).to_bits(), signed_zero(a, 0));
            assert_eq!(Fp::from_bits(SIGN).mul(fa).to_bits(), signed_zero(SIGN, a));
        }
        if !is_nan(a) && !is_zero(a) {
            assert_eq!(Fp::from_bits(0).div(fa).to_bits(), signed_zero(0, a));
            assert_eq!(Fp::from_bits(0).add(fa).to_bits(), a);
            assert_eq!(fa.add(Fp::from_bits(SIGN)).to_bits(), a);
        }
    }
}

#[test]
fn logarithm_and_exponential_run_on_many_patterns() {
    let mut state = 0x0fed_cba9_8765_4321u64;
    for _ in 0..20_000 {
        let a = next_pattern(&mut state);
        let x = f64::from_bits(a);
        let ln = val(Fp::from_bits(a).ln());
        let exp = val(Fp::from_bits(a).exp());
        if x.is_nan() || x < 0.0 {
            assert!(ln.is_nan());
        } else if x.ln().is_finite() {
            assert!((ln - x.ln()).abs() <= 1e-12 * x.ln().abs().max(1.0));
        }
        if x.is_nan() {
            assert!(exp.is_nan());
        } else if x.exp().is_finite() && x.exp() > 1e-300 {
            assert!((exp - x.exp()).abs() <= 1e-12 * x.exp());
        }
    }
}

const QUIET: u64 = 0x0008_0000_0000_0000;
const QNAN: u64 = 0x7ff8_0000_0000_0000;

fn is_inf(a: u64) -> bool {
    mag(a) == INF
}

fn signed_inf(a: u64, b: u64) -> u64 {
    INF | ((a ^ b) & SIGN)
}

/// What the stated rules give for a sum, if they decide it.
fn stated_sum(a: u64, b: u64) -> Option<u64> {
    if is_nan(a) {
        Some(mag(a) | QUIET)
    } else if is_nan(b) {
        Some(mag(b) | QUIET)
    } else if is_inf(a) {
        Some(if is_inf(b) && a != b { QNAN } else { a })
    } else if is_inf(b) {
        Some(b)
    } else if is_zero(a) && is_zero(b) {
        Some(if a == SIGN && b == SIGN { SIGN } else { 0 })
    } else if is_zero(a) {
        Some(b)
    } else if is_zero(b) {
        Some(a)
    } else if b == a ^ SIGN {
        Some(0)
    } else {
        None
    }
}

fn stated_product(a: u64, b: u64) -> Option<u64> {
    if is_nan(a) {
        Some(a | QUIET)
    } else if is_nan(b) {
        Some(b | QUIET)
    } else if is_inf(a) || is_inf(b) {
        Some(if is_zero(a) || is_zero(b) { QNAN } else { signed_inf(a, b) })
    } else if is_zero(a) || is_zero(b) {
        Some(signed_zero(a, b))
    } else {
        None
    }
}

fn stated_quotient(a: u64, b: u64) -> Option<u64> {
    if is_nan(a) {
        Some(a | QUIET)
    } else if is_nan(b) {
        Some(b | QUIET)
    } else if is_inf(a) {
        Some(if is_inf(b) { QNAN } else { signed_inf(a, b) })
    } else if is_inf(b) {
        Some(signed_zero(a, b))
    } else if is_zero(a) && is_zero(b) {
        Some(QNAN)
    } else if is_zero(b) {
        Some(signed_inf(a, b))
    } else if is_zero(a) {
        Some(signed_zero(a, b))
    } else {
        None
    }
}

fn stated_root(a: u64) -> Option<u64> {
    if is_nan(a) {
        Some(mag(a) | QUIET)
    } else if is_zero(a) || a == INF {
        Some(a)
    } else if a >= SIGN {
        Some(QNAN)
    } else {
        None
    }
}

fn undefined_and_infinite_patterns() -> Vec<u64> {
    let mut patterns = special_patterns();
    patterns.extend_from_slice(&[
        INF | 1,
        SIGN | INF | 1,
        INF | 0x0004_0000_0000_0000,
        SIGN | INF | 0x0004_0000_0000_0123,
        QNAN | 0x0000_0000_dead_beef,
        SIGN | QNAN | 0x0007_ffff_ffff_ffff,
        0x7fff_ffff_ffff_ffff,
        0xffff_ffff_ffff_ffff,
        SIGN | 0x000f_ffff_ffff_ffff,
        SIGN | 0x0010_0000_0000_0000,
        4.0f64.to_bits(),
        (-4.0f64).to_bits(),
    ]);
    patterns
}

fn check_stated_rules(a: u64, b: u64) {
    let (fa, fb) = (Fp::from_bits(a), Fp::from_bits(b));
    if let Some(expected) = stated_sum(a, b) {
        assert_eq!(fa.add(fb).to_bits(), expected, "{:#x} + {:#x}", a, b);
    }
    if let Some(expected) = stated_sum(a, b ^ SIGN) {
        assert_eq!(fa.sub(fb).to_bits(), expected, "{:#x} - {:#x}", a, b);
    }
    if let Some(expected) = stated_product(a, b) {
        assert_eq!(fa.mul(fb).to_bits(), expected, "{:#x} * {:#x}", a, b);
    }
    if let Some(expected) = stated_quotient(a, b) {
        assert_eq!(fa.div(fb).to_bits(), expected, "{:#x} / {:#x}", a, b);
    }
    if let Some(expected) = stated_root(a) {
        assert_eq!(fa.sqrt().to_bits(), expected, "root of {:#x}", a);
    }
    if is_nan(a) || is_nan(b) {
        assert!(fa.add(fb).is_nan() && fa.sub(fb).is_nan());
        assert!(fa.mul(fb).is_nan() && fa.div(fb).is_nan());
    }
}

#[test]
fn undefined_and_infinite_operands_follow_the_stated_rules() {
    let patterns = undefined_and_infinite_patterns();
    for &a in patterns.iter() {
        for &b in patterns.iter() {
            check_stated_rules(a, b);
        }
    }
}

#[test]
fn the_stated_rules_hold_on_many_patterns() {
    let mut state = 0x5eed_5eed_5eed_5eedu64;
    let specials = undefined_and_infinite_patterns();
    for round in 0..40_000usize {
        let mut a = next_pattern(&mut state);
        let mut b = next_pattern(&mut state);
        if round % 4 == 0 {
            a |= INF;
        }
        if round % 5 == 0 {
            b |= INF;
        }
        if round % 11 == 0 {
            b = specials[round % specials.len()];
        }
        if round % 13 == 0 {
            a = specials[round % specials.len()];
        }
        check_stated_rules(a, b);
        check_stated_rules(b, a);
    }
}
