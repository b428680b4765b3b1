use ta_stream::fp::Fp;
use ta_stream::series::{
    count_le_of, deepest_drawdown_of, has_nan, index_dot_of, last_eq_of, max_of, min_of,
    path_length_of, ramp_dot_of, ramp_total_of, sum_of,
};
use ta_stream::window::Window;

fn fp(x: f64) -> Fp {
    Fp::from_bits(x.to_bits())
}

fn val(x: Fp) -> f64 {
    f64::from_bits(x.to_bits())
}

#[test]
fn window_never_holds_more_than_its_capacity() {
    let mut window = Window::new(14);
    for i in 0..10_000 {
        window.push(fp(i as f64));
        assert!(window.len() <= 14);
    }
    assert_eq!(window.len(), 14);
    assert_eq!(window.cap(), 14);
    assert!(window.is_full());
}

#[test]
fn window_holds_the_last_samples_oldest_first() {
    let mut window = Window::new(3);
    assert!(window.push(fp(1.0)).is_none());
    assert!(window.push(fp(2.0)).is_none());
    assert!(window.push(fp(3.0)).is_none());
    let out = window.push(fp(4.0));
    assert_eq!(val(out.unwrap()), 1.0);
    let held: Vec<f64> = window.to_vec().iter().map(|&x| val(x)).collect();
    assert_eq!(held, vec![2.0, 3.0, 4.0]);
    assert_eq!(val(window.get(0)), 2.0);
    window.clear();
    assert_eq!(window.len(), 0);
    assert!(!window.is_full());
}

#[test]
fn window_of_no_capacity_stays_empty() {
    let mut window = Window::new(0);
    let out = window.push(fp(5.0));
    assert_eq!(val(out.unwrap()), 5.0);
    assert_eq!(window.len(), 0);
}

#[test]
fn folds_read_windows_and_slices_alike() {
    let data: Vec<Fp> = [3.0, 1.0, 4.0, 1.0, 5.0].iter().map(|&x| fp(x)).collect();
    let mut window = Window::new(5);
    for &x in data.iter() {
        window.push(x);
    }
    assert_eq!(val(sum_of(data.as_slice(), 0, 5)), 14.0);
    assert_eq!(val(sum_of(&window, 0, 5)), 14.0);
    assert_eq!(val(sum_of(data.as_slice(), 1, 3)), 5.0);
    assert_eq!(val(max_of(data.as_slice(), 0, 5)), 5.0);
    assert_eq!(val(min_of(&window, 0, 5)), 1.0);
    assert_eq!(val(max_of(data.as_slice(), 2, 2)), f64::NEG_INFINITY);
    assert_eq!(val(min_of(data.as_slice(), 2, 2)), f64::INFINITY);
    assert_eq!(val(ramp_dot_of(data.as_slice(), 1, 4)), 1.0 * 1.0 + 4.0 * 2.0 + 1.0 * 3.0);
    assert_eq!(val(ramp_total_of(4)), 10.0);
    assert_eq!(val(index_dot_of(data.as_slice(), 1, 4)), 0.0 * 1.0 + 1.0 * 4.0 + 2.0 * 1.0);
    assert_eq!(val(path_length_of(data.as_slice())), 2.0 + 3.0 + 3.0 + 4.0);
    assert_eq!(count_le_of(data.as_slice(), 0, 5, fp(3.0)), 3);
    assert_eq!(last_eq_of(data.as_slice(), fp(1.0)), Some(3));
    assert_eq!(last_eq_of(data.as_slice(), fp(2.0)), None);
    assert!(!has_nan(data.as_slice(), 0, 5));
    assert_eq!(val(deepest_drawdown_of(data.as_slice())), (1.0 - 4.0) / 4.0);
}

#[test]
fn extremes_pass_over_undefined_samples() {
    let data: Vec<Fp> = [f64::NAN, 2.0, f64::NAN, 7.0].iter().map(|&x| fp(x)).collect();
    assert_eq!(val(max_of(data.as_slice(), 0, 4)), 7.0);
    assert_eq!(val(min_of(data.as_slice(), 0, 4)), 2.0);
    assert!(has_nan(data.as_slice(), 0, 4));
    assert!(!has_nan(data.as_slice(), 1, 2));
}
