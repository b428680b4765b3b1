//! Bulk trend indicators, each over a whole series.

use vstd::prelude::*;
use crate::fp::{Fp, NAN, ZERO, ONE, TWO, THREE, FOUR, HUNDRED, of_nat};
use crate::series::{
    ramp_dot, ramp_total, ramp_dot_of, ramp_total_of, abs_dev_range, abs_dev_of, max_range,
    min_range, max_of, min_of, last_eq_in, last_eq_in_of, defined_sum_range, defined_sum_of,
    undefined_vec,
};
use crate::helpers::{
    warm, sma_series, sma_kernel, ema_series, ema_kernel, wilder_series, wilders_ema_kernel,
    true_ranges, true_range, rolling_sums, rolling_sum,
};
use crate::formulas::{
    ema_alpha, minus_dm, percent_change, percent_change_of, plus_dm, typical,
    typical_price,
};

verus! {

/// The smoothing constant two over `n` plus one.
pub fn ema_alpha_of(n: usize) -> (r: Fp)
    ensures
        r == ema_alpha(n as nat),
{
    Fp(TWO).div(Fp::from_usize(n).add(Fp(ONE)))
}

/// The difference of two series where both are defined, undefined elsewhere.
pub open spec fn defined_difference(a: Seq<Fp>, b: Seq<Fp>) -> Seq<Fp> {
    Seq::new(
        a.len(),
        |i: int|
            if !a[i].nan() && !b[i].nan() {
                a[i].sub_spec(b[i])
            } else {
                Fp(NAN)
            },
    )
}

pub fn defined_difference_of(a: &[Fp], b: &[Fp]) -> (out: Vec<Fp>)
    requires
        a@.len() == b@.len(),
    ensures
        out@ == defined_difference(a@, b@),
{
    let n = a.len();
    let mut out: Vec<Fp> = Vec::new();
    let mut i: usize = 0;
    while i < n
        invariant
            i <= n,
            n == a@.len(),
            n == b@.len(),
            out@.len() == i,
            forall|k: int| 0 <= k < i ==> #[trigger] out@[k] == defined_difference(a@, b@)[k],
        decreases n - i,
    {
        if !a[i].is_nan() && !b[i].is_nan() {
            out.push(a[i].sub(b[i]));
        } else {
            out.push(Fp(NAN));
        }
        i = i + 1;
    }
    assert(out@ =~= defined_difference(a@, b@));
    out
}

/// Simple moving average over `n` samples.
pub fn sma(data: &[Fp], n: usize) -> (result: Vec<Fp>)
    ensures
        result@ == sma_series(data@, n as nat),
{
    sma_kernel(data, n)
}

/// Exponential moving average with the constant two over `n` plus one.
pub fn ema(data: &[Fp], n: usize, adjusted: bool) -> (result: Vec<Fp>)
    ensures
        result@ == ema_series(data@, ema_alpha(n as nat), adjusted),
{
    ema_kernel(data, ema_alpha_of(n), adjusted)
}

/// The weighted moving average at `i`: the window's samples weighted one to
/// `n` from oldest to newest, over the sum of the weights.
pub open spec fn wma_at(data: Seq<Fp>, n: nat, i: int) -> Fp {
    if warm(n, data.len(), i) {
        ramp_dot(data, i + 1 - n, i + 1).div_spec(ramp_total(n))
    } else {
        Fp(NAN)
    }
}

pub open spec fn wma_series(data: Seq<Fp>, n: nat) -> Seq<Fp> {
    Seq::new(data.len(), |i: int| wma_at(data, n, i))
}

pub fn wma(data: &[Fp], n: usize) -> (result: Vec<Fp>)
    ensures
        result@ == wma_series(data@, n as nat),
{
    let len = data.len();
    if len < n || n == 0 {
        let early = undefined_vec(len);
        assert(early@ =~= wma_series(data@, n as nat));
        return early;
    }
    let weight_sum = ramp_total_of(n);
    let mut result = undefined_vec(n - 1);
    let mut i: usize = n - 1;
    while i < len
        invariant
            1 <= n <= len,
            n - 1 <= i <= len,
            len == data@.len(),
            weight_sum == ramp_total(n as nat),
            result@.len() == i,
            forall|k: int| 0 <= k < i ==> #[trigger] result@[k] == wma_at(data@, n as nat, k),
        decreases len - i,
    {
        result.push(ramp_dot_of(data, i + 1 - n, i + 1).div(weight_sum));
        i = i + 1;
    }
    assert(result@ =~= wma_series(data@, n as nat));
    result
}

// ---------------------------------------------------------------------------
// MACD
// ---------------------------------------------------------------------------

/// The MACD line: the fast average less the slow one.
pub open spec fn macd_line(close: Seq<Fp>, n_fast: nat, n_slow: nat, adjusted: bool) -> Seq<Fp> {
    defined_difference(
        ema_series(close, ema_alpha(n_fast), adjusted),
        ema_series(close, ema_alpha(n_slow), adjusted),
    )
}

/// The signal line: the adjusted average of the MACD line.
pub open spec fn macd_signal(line: Seq<Fp>, n_signal: nat) -> Seq<Fp> {
    ema_series(line, ema_alpha(n_signal), true)
}

/// Returns the line, the signal and the histogram.
pub fn macd(close: &[Fp], n_fast: usize, n_slow: usize, n_signal: usize, adjusted: bool) -> (r: (
    Vec<Fp>,
    Vec<Fp>,
    Vec<Fp>,
))
    ensures
        r.0@ == macd_line(close@, n_fast as nat, n_slow as nat, adjusted),
        r.1@ == macd_signal(r.0@, n_signal as nat),
        r.2@ == defined_difference(r.0@, r.1@),
{
    let ema_fast = ema_kernel(close, ema_alpha_of(n_fast), adjusted);
    let ema_slow = ema_kernel(close, ema_alpha_of(n_slow), adjusted);
    let line = defined_difference_of(ema_fast.as_slice(), ema_slow.as_slice());
    let signal_line = ema_kernel(line.as_slice(), ema_alpha_of(n_signal), true);
    let histogram = defined_difference_of(line.as_slice(), signal_line.as_slice());
    (line, signal_line, histogram)
}

// ---------------------------------------------------------------------------
// ADX
// ---------------------------------------------------------------------------

/// The upward directional movement of every bar; zero for the first.
pub open spec fn plus_dm_series(high: Seq<Fp>, low: Seq<Fp>) -> Seq<Fp> {
    Seq::new(
        high.len(),
        |i: int|
            if i >= 1 {
                plus_dm(high[i].sub_spec(high[i - 1]), low[i - 1].sub_spec(low[i]))
            } else {
                Fp(ZERO)
            },
    )
}

/// The downward directional movement of every bar; zero for the first.
pub open spec fn minus_dm_series(high: Seq<Fp>, low: Seq<Fp>) -> Seq<Fp> {
    Seq::new(
        high.len(),
        |i: int|
            if i >= 1 {
                minus_dm(high[i].sub_spec(high[i - 1]), low[i - 1].sub_spec(low[i]))
            } else {
                Fp(ZERO)
            },
    )
}

/// A directional indicator: the smoothed movement over the average true
/// range, in percent, where that range is defined and not zero.
pub open spec fn di_series(smoothed_dm: Seq<Fp>, atr: Seq<Fp>) -> Seq<Fp> {
    Seq::new(
        atr.len(),
        |i: int|
            if !atr[i].nan() && atr[i].ne_spec(Fp(ZERO)) {
                smoothed_dm[i].div_spec(atr[i]).mul_spec(Fp(HUNDRED))
            } else {
                Fp(NAN)
            },
    )
}

/// The directional movement index: the distance of the two indicators over
/// their sum, in percent, where both are defined and the sum is not zero.
pub open spec fn dx_series(plus_di: Seq<Fp>, minus_di: Seq<Fp>) -> Seq<Fp> {
    Seq::new(
        plus_di.len(),
        |i: int|
            if !plus_di[i].nan() && !minus_di[i].nan() && plus_di[i].add_spec(minus_di[i]).ne_spec(
                Fp(ZERO),
            ) {
                plus_di[i].sub_spec(minus_di[i]).abs_spec().div_spec(
                    plus_di[i].add_spec(minus_di[i]),
                ).mul_spec(Fp(HUNDRED))
            } else {
                Fp(NAN)
            },
    )
}

fn directional_movements(high: &[Fp], low: &[Fp]) -> (r: (Vec<Fp>, Vec<Fp>))
    requires
        low@.len() == high@.len(),
    ensures
        r.0@ == plus_dm_series(high@, low@),
        r.1@ == minus_dm_series(high@, low@),
{
    let n = high.len();
    let mut plus: Vec<Fp> = Vec::new();
    let mut minus: Vec<Fp> = Vec::new();
    let mut i: usize = 0;
    while i < n
        invariant
            i <= n,
            n == high@.len(),
            n == low@.len(),
            plus@.len() == i,
            minus@.len() == i,
            forall|k: int| 0 <= k < i ==> #[trigger] plus@[k] == plus_dm_series(high@, low@)[k],
            forall|k: int| 0 <= k < i ==> #[trigger] minus@[k] == minus_dm_series(high@, low@)[k],
        decreases n - i,
    {
        if i >= 1 {
            let high_diff = high[i].sub(high[i - 1]);
            let low_diff = low[i - 1].sub(low[i]);
            if high_diff.gt(low_diff) && high_diff.gt(Fp(ZERO)) {
                plus.push(high_diff);
            } else {
                plus.push(Fp(ZERO));
            }
            if low_diff.gt(high_diff) && low_diff.gt(Fp(ZERO)) {
                minus.push(low_diff);
            } else {
                minus.push(Fp(ZERO));
            }
        } else {
            plus.push(Fp(ZERO));
            minus.push(Fp(ZERO));
        }
        i = i + 1;
    }
    assert(plus@ =~= plus_dm_series(high@, low@));
    assert(minus@ =~= minus_dm_series(high@, low@));
    (plus, minus)
}

fn directional_indicator(smoothed_dm: &[Fp], atr: &[Fp]) -> (out: Vec<Fp>)
    requires
        smoothed_dm@.len() == atr@.len(),
    ensures
        out@ == di_series(smoothed_dm@, atr@),
{
    let n = atr.len();
    let mut out: Vec<Fp> = Vec::new();
    let mut i: usize = 0;
    while i < n
        invariant
            i <= n,
            n == atr@.len(),
            n == smoothed_dm@.len(),
            out@.len() == i,
            forall|k: int| 0 <= k < i ==> #[trigger] out@[k] == di_series(smoothed_dm@, atr@)[k],
        decreases n - i,
    {
        if !atr[i].is_nan() && atr[i].ne(Fp(ZERO)) {
            out.push(smoothed_dm[i].div(atr[i]).mul(Fp(HUNDRED)));
        } else {
            out.push(Fp(NAN));
        }
        i = i + 1;
    }
    assert(out@ =~= di_series(smoothed_dm@, atr@));
    out
}

fn directional_index(plus_di: &[Fp], minus_di: &[Fp]) -> (out: Vec<Fp>)
    requires
        plus_di@.len() == minus_di@.len(),
    ensures
        out@ == dx_series(plus_di@, minus_di@),
{
    let n = plus_di.len();
    let mut out: Vec<Fp> = Vec::new();
    let mut i: usize = 0;
    while i < n
        invariant
            i <= n,
            n == plus_di@.len(),
            n == minus_di@.len(),
            out@.len() == i,
            forall|k: int| 0 <= k < i ==> #[trigger] out@[k] == dx_series(plus_di@, minus_di@)[k],
        decreases n - i,
    {
        let mut dx = Fp(NAN);
        if !plus_di[i].is_nan() && !minus_di[i].is_nan() {
            let di_sum = plus_di[i].add(minus_di[i]);
            if di_sum.ne(Fp(ZERO)) {
                dx = plus_di[i].sub(minus_di[i]).abs().div(di_sum).mul(Fp(HUNDRED));
            }
        }
        out.push(dx);
        i = i + 1;
    }
    assert(out@ =~= dx_series(plus_di@, minus_di@));
    out
}

/// The upward directional indicator of a series of bars.
pub open spec fn plus_di(high: Seq<Fp>, low: Seq<Fp>, close: Seq<Fp>, n: nat) -> Seq<Fp> {
    di_series(
        wilder_series(plus_dm_series(high, low), n),
        wilder_series(true_ranges(high, low, close), n),
    )
}

/// The downward directional indicator of a series of bars.
pub open spec fn minus_di(high: Seq<Fp>, low: Seq<Fp>, close: Seq<Fp>, n: nat) -> Seq<Fp> {
    di_series(
        wilder_series(minus_dm_series(high, low), n),
        wilder_series(true_ranges(high, low, close), n),
    )
}

/// Returns the average directional index and the upward and downward
/// indicators. The index is Wilder's average of the movement index.
pub fn adx(high: &[Fp], low: &[Fp], close: &[Fp], n: usize) -> (r: (Vec<Fp>, Vec<Fp>, Vec<Fp>))
    requires
        low@.len() == high@.len(),
        close@.len() == high@.len(),
    ensures
        r.1@ == plus_di(high@, low@, close@, n as nat),
        r.2@ == minus_di(high@, low@, close@, n as nat),
        r.0@ == wilder_series(dx_series(r.1@, r.2@), n as nat),
{
    let (plus, minus) = directional_movements(high, low);
    let tr = true_range(high, low, close);
    let atr_values = wilders_ema_kernel(tr.as_slice(), n);
    let smoothed_plus = wilders_ema_kernel(plus.as_slice(), n);
    let smoothed_minus = wilders_ema_kernel(minus.as_slice(), n);
    let plus_values = directional_indicator(smoothed_plus.as_slice(), atr_values.as_slice());
    let minus_values = directional_indicator(smoothed_minus.as_slice(), atr_values.as_slice());
    let dx = directional_index(plus_values.as_slice(), minus_values.as_slice());
    let adx_values = wilders_ema_kernel(dx.as_slice(), n);
    (adx_values, plus_values, minus_values)
}

// ---------------------------------------------------------------------------
// CCI
// ---------------------------------------------------------------------------

/// The typical price of every bar.
pub open spec fn typical_series(high: Seq<Fp>, low: Seq<Fp>, close: Seq<Fp>) -> Seq<Fp> {
    Seq::new(high.len(), |i: int| typical(high[i], low[i], close[i]))
}

pub fn typical_prices(high: &[Fp], low: &[Fp], close: &[Fp]) -> (out: Vec<Fp>)
    requires
        low@.len() == high@.len(),
        close@.len() == high@.len(),
    ensures
        out@ == typical_series(high@, low@, close@),
{
    let n = high.len();
    let mut out: Vec<Fp> = Vec::new();
    let mut i: usize = 0;
    while i < n
        invariant
            i <= n,
            n == high@.len(),
            n == low@.len(),
            n == close@.len(),
            out@.len() == i,
            forall|k: int|
                0 <= k < i ==> #[trigger] out@[k] == typical_series(high@, low@, close@)[k],
        decreases n - i,
    {
        out.push(typical_price(high[i], low[i], close[i]));
        i = i + 1;
    }
    assert(out@ =~= typical_series(high@, low@, close@));
    out
}

/// The commodity channel index at `i` of a series of typical prices: the
/// distance of the price from its moving average, over `c` times the mean
/// absolute deviation of the window from that average; zero where the
/// deviation is zero.
pub open spec fn cci_at(tp: Seq<Fp>, n: nat, c: Fp, i: int) -> Fp {
    if warm(n, tp.len(), i) {
        let mean = sma_series(tp, n)[i];
        let mean_dev = abs_dev_range(tp, i + 1 - n, i + 1, mean).div_spec(of_nat(n));
        if mean_dev.ne_spec(Fp(ZERO)) {
            tp[i].sub_spec(mean).div_spec(c.mul_spec(mean_dev))
        } else {
            Fp(ZERO)
        }
    } else {
        Fp(NAN)
    }
}

pub open spec fn cci_series(high: Seq<Fp>, low: Seq<Fp>, close: Seq<Fp>, n: nat, c: Fp) -> Seq<Fp> {
    Seq::new(high.len(), |i: int| cci_at(typical_series(high, low, close), n, c, i))
}

pub fn cci(high: &[Fp], low: &[Fp], close: &[Fp], n: usize, c: Fp) -> (result: Vec<Fp>)
    requires
        low@.len() == high@.len(),
        close@.len() == high@.len(),
    ensures
        result@ == cci_series(high@, low@, close@, n as nat, c),
{
    let len = high.len();
    let tp = typical_prices(high, low, close);
    if n == 0 || n > len {
        let early = undefined_vec(len);
        assert(early@ =~= cci_series(high@, low@, close@, n as nat, c));
        return early;
    }
    let sma_tp = sma_kernel(tp.as_slice(), n);
    let w = Fp::from_usize(n);
    let mut result = undefined_vec(n - 1);
    let mut i: usize = n - 1;
    while i < len
        invariant
            1 <= n <= len,
            n - 1 <= i <= len,
            len == high@.len(),
            tp@ == typical_series(high@, low@, close@),
            tp@.len() == len,
            sma_tp@ == sma_series(tp@, n as nat),
            w == of_nat(n as nat),
            result@.len() == i,
            forall|k: int| 0 <= k < i ==> #[trigger] result@[k] == cci_at(tp@, n as nat, c, k),
        decreases len - i,
    {
        let mean = sma_tp[i];
        let mean_dev = abs_dev_of(tp.as_slice(), i + 1 - n, i + 1, mean).div(w);
        if mean_dev.ne(Fp(ZERO)) {
            result.push(tp[i].sub(mean).div(c.mul(mean_dev)));
        } else {
            result.push(Fp(ZERO));
        }
        i = i + 1;
    }
    assert(result@ =~= cci_series(high@, low@, close@, n as nat, c));
    result
}

// ---------------------------------------------------------------------------
// DPO
// ---------------------------------------------------------------------------

/// The detrended price oscillator at `i`: the close less the moving average
/// taken half the window, plus one, bars earlier, where that average is
/// defined.
pub open spec fn dpo_at(close: Seq<Fp>, n: nat, i: int) -> Fp {
    let shift = n / 2 + 1;
    if i >= shift - 1 && !sma_series(close, n)[i + 1 - shift].nan() {
        close[i].sub_spec(sma_series(close, n)[i + 1 - shift])
    } else {
        Fp(NAN)
    }
}

pub open spec fn dpo_series(close: Seq<Fp>, n: nat) -> Seq<Fp> {
    Seq::new(close.len(), |i: int| dpo_at(close, n, i))
}

pub fn dpo(close: &[Fp], n: usize) -> (result: Vec<Fp>)
    ensures
        result@ == dpo_series(close@, n as nat),
{
    let len = close.len();
    let sma_values = sma_kernel(close, n);
    let shift = n / 2 + 1;
    let mut result: Vec<Fp> = Vec::new();
    let mut i: usize = 0;
    while i < len
        invariant
            i <= len,
            len == close@.len(),
            shift == n / 2 + 1,
            sma_values@ == sma_series(close@, n as nat),
            result@.len() == i,
            forall|k: int| 0 <= k < i ==> #[trigger] result@[k] == dpo_at(close@, n as nat, k),
        decreases len - i,
    {
        if i >= shift - 1 && !sma_values[i + 1 - shift].is_nan() {
            result.push(close[i].sub(sma_values[i + 1 - shift]));
        } else {
            result.push(Fp(NAN));
        }
        i = i + 1;
    }
    assert(result@ =~= dpo_series(close@, n as nat));
    result
}

// ---------------------------------------------------------------------------
// Vortex indicator
// ---------------------------------------------------------------------------

/// The upward vortex movement of every bar: the distance from the previous
/// low to the high; zero for the first bar.
pub open spec fn vm_plus_series(high: Seq<Fp>, low: Seq<Fp>) -> Seq<Fp> {
    Seq::new(
        high.len(),
        |i: int|
            if i >= 1 {
                high[i].sub_spec(low[i - 1]).abs_spec()
            } else {
                Fp(ZERO)
            },
    )
}

/// The downward vortex movement of every bar: the distance from the
/// previous high to the low; zero for the first bar.
pub open spec fn vm_minus_series(high: Seq<Fp>, low: Seq<Fp>) -> Seq<Fp> {
    Seq::new(
        high.len(),
        |i: int|
            if i >= 1 {
                low[i].sub_spec(high[i - 1]).abs_spec()
            } else {
                Fp(ZERO)
            },
    )
}

/// A series over another where the second is defined and not zero.
pub open spec fn defined_ratio(a: Seq<Fp>, b: Seq<Fp>) -> Seq<Fp> {
    Seq::new(
        b.len(),
        |i: int|
            if b[i].ne_spec(Fp(ZERO)) && !b[i].nan() {
                a[i].div_spec(b[i])
            } else {
                Fp(NAN)
            },
    )
}

pub fn defined_ratio_of(a: &[Fp], b: &[Fp]) -> (out: Vec<Fp>)
    requires
        a@.len() == b@.len(),
    ensures
        out@ == defined_ratio(a@, b@),
{
    let n = b.len();
    let mut out: Vec<Fp> = Vec::new();
    let mut i: usize = 0;
    while i < n
        invariant
            i <= n,
            n == a@.len(),
            n == b@.len(),
            out@.len() == i,
            forall|k: int| 0 <= k < i ==> #[trigger] out@[k] == defined_ratio(a@, b@)[k],
        decreases n - i,
    {
        if b[i].ne(Fp(ZERO)) && !b[i].is_nan() {
            out.push(a[i].div(b[i]));
        } else {
            out.push(Fp(NAN));
        }
        i = i + 1;
    }
    assert(out@ =~= defined_ratio(a@, b@));
    out
}

fn vortex_movements(high: &[Fp], low: &[Fp]) -> (r: (Vec<Fp>, Vec<Fp>))
    requires
        low@.len() == high@.len(),
    ensures
        r.0@ == vm_plus_series(high@, low@),
        r.1@ == vm_minus_series(high@, low@),
{
    let n = high.len();
    let mut plus: Vec<Fp> = Vec::new();
    let mut minus: Vec<Fp> = Vec::new();
    let mut i: usize = 0;
    while i < n
        invariant
            i <= n,
            n == high@.len(),
            n == low@.len(),
            plus@.len() == i,
            minus@.len() == i,
            forall|k: int| 0 <= k < i ==> #[trigger] plus@[k] == vm_plus_series(high@, low@)[k],
            forall|k: int| 0 <= k < i ==> #[trigger] minus@[k] == vm_minus_series(high@, low@)[k],
        decreases n - i,
    {
        if i >= 1 {
            plus.push(high[i].sub(low[i - 1]).abs());
            minus.push(low[i].sub(high[i - 1]).abs());
        } else {
            plus.push(Fp(ZERO));
            minus.push(Fp(ZERO));
        }
        i = i + 1;
    }
    assert(plus@ =~= vm_plus_series(high@, low@));
    assert(minus@ =~= vm_minus_series(high@, low@));
    (plus, minus)
}

/// The upward vortex indicator: the rolling sum of the upward movement over
/// the rolling sum of the true range.
pub open spec fn vortex_plus(high: Seq<Fp>, low: Seq<Fp>, close: Seq<Fp>, n: nat) -> Seq<Fp> {
    defined_ratio(
        rolling_sums(vm_plus_series(high, low), n),
        rolling_sums(true_ranges(high, low, close), n),
    )
}

/// The downward vortex indicator.
pub open spec fn vortex_minus(high: Seq<Fp>, low: Seq<Fp>, close: Seq<Fp>, n: nat) -> Seq<Fp> {
    defined_ratio(
        rolling_sums(vm_minus_series(high, low), n),
        rolling_sums(true_ranges(high, low, close), n),
    )
}

/// Returns the upward and the downward indicator.
pub fn vortex_indicator(high: &[Fp], low: &[Fp], close: &[Fp], n: usize) -> (r: (Vec<Fp>, Vec<Fp>))
    requires
        low@.len() == high@.len(),
        close@.len() == high@.len(),
    ensures
        r.0@ == vortex_plus(high@, low@, close@, n as nat),
        r.1@ == vortex_minus(high@, low@, close@, n as nat),
{
    let (vm_plus, vm_minus) = vortex_movements(high, low);
    let tr = true_range(high, low, close);
    let sum_vm_plus = rolling_sum(vm_plus.as_slice(), n);
    let sum_vm_minus = rolling_sum(vm_minus.as_slice(), n);
    let sum_tr = rolling_sum(tr.as_slice(), n);
    let vi_plus = defined_ratio_of(sum_vm_plus.as_slice(), sum_tr.as_slice());
    let vi_minus = defined_ratio_of(sum_vm_minus.as_slice(), sum_tr.as_slice());
    (vi_plus, vi_minus)
}

// ---------------------------------------------------------------------------
// Parabolic SAR
// ---------------------------------------------------------------------------

/// State of the parabolic stop-and-reverse after a bar: the trend, the
/// acceleration factor, the trend's extreme point, and the stop.
pub struct SarState {
    pub long: bool,
    pub af: Fp,
    pub extreme: Fp,
    pub sar: Fp,
}

/// The state after the first two bars: the trend follows the change of the
/// close, the extreme is the second bar's end in the trend's direction, and
/// the stop is the first bar's opposite end.
pub open spec fn sar_seed(high: Seq<Fp>, low: Seq<Fp>, close: Seq<Fp>, af_start: Fp) -> SarState {
    let long = close[1].gt_spec(close[0]);
    SarState {
        long,
        af: af_start,
        extreme: if long {
            high[1]
        } else {
            low[1]
        },
        sar: if long {
            low[0]
        } else {
            high[0]
        },
    }
}

/// The state after bar `i`. The stop moves towards the extreme by the
/// acceleration factor and is held beyond the two previous bars. A bar that
/// crosses it reverses the trend: the stop jumps to the extreme, the new
/// extreme is the bar's crossing end, and the factor starts over. Otherwise
/// a new extreme raises the factor by one increment, up to the maximum.
pub open spec fn sar_next(
    prev: SarState,
    high: Seq<Fp>,
    low: Seq<Fp>,
    af_start: Fp,
    af_inc: Fp,
    af_max: Fp,
    i: int,
) -> SarState {
    let moved = prev.sar.add_spec(prev.af.mul_spec(prev.extreme.sub_spec(prev.sar)));
    if prev.long {
        let held = moved.min_spec(low[i - 1]).min_spec(low[i - 2]);
        if low[i].lt_spec(held) {
            SarState { long: false, af: af_start, extreme: low[i], sar: prev.extreme }
        } else if high[i].gt_spec(prev.extreme) {
            SarState {
                long: true,
                af: prev.af.add_spec(af_inc).min_spec(af_max),
                extreme: high[i],
                sar: held,
            }
        } else {
            SarState { sar: held, ..prev }
        }
    } else {
        let held = moved.max_spec(high[i - 1]).max_spec(high[i - 2]);
        if high[i].gt_spec(held) {
            SarState { long: true, af: af_start, extreme: high[i], sar: prev.extreme }
        } else if low[i].lt_spec(prev.extreme) {
            SarState {
                long: false,
                af: prev.af.add_spec(af_inc).min_spec(af_max),
                extreme: low[i],
                sar: held,
            }
        } else {
            SarState { sar: held, ..prev }
        }
    }
}

pub open spec fn sar_state(
    high: Seq<Fp>,
    low: Seq<Fp>,
    close: Seq<Fp>,
    af_start: Fp,
    af_inc: Fp,
    af_max: Fp,
    i: int,
) -> SarState
    decreases i,
{
    if i <= 1 {
        sar_seed(high, low, close, af_start)
    } else {
        sar_next(
            sar_state(high, low, close, af_start, af_inc, af_max, i - 1),
            high,
            low,
            af_start,
            af_inc,
            af_max,
            i,
        )
    }
}

/// The stop of every bar; undefined for a series of fewer than two bars.
pub open spec fn sar_series(
    high: Seq<Fp>,
    low: Seq<Fp>,
    close: Seq<Fp>,
    af_start: Fp,
    af_inc: Fp,
    af_max: Fp,
) -> Seq<Fp> {
    Seq::new(
        high.len(),
        |i: int|
            if high.len() < 2 {
                Fp(NAN)
            } else {
                sar_state(high, low, close, af_start, af_inc, af_max, i).sar
            },
    )
}

pub fn parabolic_sar(
    high: &[Fp],
    low: &[Fp],
    close: &[Fp],
    af_start: Fp,
    af_inc: Fp,
    af_max: Fp,
) -> (sar: Vec<Fp>)
    requires
        low@.len() == high@.len(),
        close@.len() == high@.len(),
    ensures
        sar@ == sar_series(high@, low@, close@, af_start, af_inc, af_max),
{
    let len = high.len();
    if len < 2 {
        let early = undefined_vec(len);
        assert(early@ =~= sar_series(high@, low@, close@, af_start, af_inc, af_max));
        return early;
    }
    let mut is_long = close[1].gt(close[0]);
    let mut af = af_start;
    let mut extreme_point = if is_long {
        high[1]
    } else {
        low[1]
    };
    let first = if is_long {
        low[0]
    } else {
        high[0]
    };
    let mut prev_sar = first;
    let mut sar: Vec<Fp> = Vec::new();
    sar.push(first);
    sar.push(first);
    let mut i: usize = 2;
    while i < len
        invariant
            2 <= i <= len,
            len == high@.len(),
            len == low@.len(),
            len == close@.len(),
            sar@.len() == i,
            sar_state(high@, low@, close@, af_start, af_inc, af_max, i - 1) == (SarState {
                long: is_long,
                af,
                extreme: extreme_point,
                sar: prev_sar,
            }),
            forall|k: int|
                0 <= k < i ==> #[trigger] sar@[k] == sar_state(
                    high@,
                    low@,
                    close@,
                    af_start,
                    af_inc,
                    af_max,
                    k,
                ).sar,
        decreases len - i,
    {
        let mut new_sar = prev_sar.add(af.mul(extreme_point.sub(prev_sar)));
        if is_long {
            new_sar = new_sar.min(low[i - 1]).min(low[i - 2]);
            if low[i].lt(new_sar) {
                is_long = false;
                new_sar = extreme_point;
                extreme_point = low[i];
                af = af_start;
            } else {
                if high[i].gt(extreme_point) {
                    extreme_point = high[i];
                    af = af.add(af_inc).min(af_max);
                }
            }
        } else {
            new_sar = new_sar.max(high[i - 1]).max(high[i - 2]);
            if high[i].gt(new_sar) {
                is_long = true;
                new_sar = extreme_point;
                extreme_point = high[i];
                af = af_start;
            } else {
                if low[i].lt(extreme_point) {
                    extreme_point = low[i];
                    af = af.add(af_inc).min(af_max);
                }
            }
        }
        sar.push(new_sar);
        prev_sar = new_sar;
        i = i + 1;
    }
    assert(sar@ =~= sar_series(high@, low@, close@, af_start, af_inc, af_max));
    sar
}

// ---------------------------------------------------------------------------
// TRIX
// ---------------------------------------------------------------------------

/// The change of a series from each sample to the next, in percent of the
/// earlier sample, where both are defined and the earlier one is not zero.
pub open spec fn percent_step_series(s: Seq<Fp>) -> Seq<Fp> {
    Seq::new(
        s.len(),
        |i: int|
            if i >= 1 && !s[i].nan() && !s[i - 1].nan() && s[i - 1].ne_spec(Fp(ZERO)) {
                s[i].sub_spec(s[i - 1]).div_spec(s[i - 1]).mul_spec(Fp(HUNDRED))
            } else {
                Fp(NAN)
            },
    )
}

/// The triple adjusted exponential average of a series.
pub open spec fn triple_ema(close: Seq<Fp>, n: nat) -> Seq<Fp> {
    let alpha = ema_alpha(n);
    ema_series(ema_series(ema_series(close, alpha, true), alpha, true), alpha, true)
}

pub fn trix(close: &[Fp], n: usize) -> (result: Vec<Fp>)
    ensures
        result@ == percent_step_series(triple_ema(close@, n as nat)),
{
    let len = close.len();
    let alpha = ema_alpha_of(n);
    let ema1 = ema_kernel(close, alpha, true);
    let ema2 = ema_kernel(ema1.as_slice(), alpha, true);
    let ema3 = ema_kernel(ema2.as_slice(), alpha, true);
    let mut result: Vec<Fp> = Vec::new();
    let mut i: usize = 0;
    while i < len
        invariant
            i <= len,
            len == close@.len(),
            ema3@ == triple_ema(close@, n as nat),
            ema3@.len() == len,
            result@.len() == i,
            forall|k: int| 0 <= k < i ==> #[trigger] result@[k] == percent_step_series(ema3@)[k],
        decreases len - i,
    {
        if i >= 1 && !ema3[i].is_nan() && !ema3[i - 1].is_nan() && ema3[i - 1].ne(Fp(ZERO)) {
            result.push(ema3[i].sub(ema3[i - 1]).div(ema3[i - 1]).mul(Fp(HUNDRED)));
        } else {
            result.push(Fp(NAN));
        }
        i = i + 1;
    }
    assert(result@ =~= percent_step_series(ema3@));
    result
}

// ---------------------------------------------------------------------------
// Mass index
// ---------------------------------------------------------------------------

/// The height of every bar.
pub open spec fn height_series(high: Seq<Fp>, low: Seq<Fp>) -> Seq<Fp> {
    Seq::new(high.len(), |i: int| high[i].sub_spec(low[i]))
}

/// The rolling sum of the defined samples of each whole window.
pub open spec fn defined_rolling_sums(s: Seq<Fp>, n: nat) -> Seq<Fp> {
    Seq::new(
        s.len(),
        |i: int|
            if warm(n, s.len(), i) {
                defined_sum_range(s, i + 1 - n, i + 1)
            } else {
                Fp(NAN)
            },
    )
}

/// The ratio of the single to the double adjusted average of the bars'
/// heights.
pub open spec fn mass_ratio(high: Seq<Fp>, low: Seq<Fp>, n_ema: nat) -> Seq<Fp> {
    let alpha = ema_alpha(n_ema);
    let ema1 = ema_series(height_series(high, low), alpha, true);
    defined_ratio(ema1, ema_series(ema1, alpha, true))
}

pub fn mass_index(high: &[Fp], low: &[Fp], n_ema: usize, n_sum: usize) -> (mi: Vec<Fp>)
    requires
        low@.len() == high@.len(),
    ensures
        mi@ == defined_rolling_sums(mass_ratio(high@, low@, n_ema as nat), n_sum as nat),
{
    let len = high.len();
    let mut range: Vec<Fp> = Vec::new();
    let mut j: usize = 0;
    while j < len
        invariant
            j <= len,
            len == high@.len(),
            len == low@.len(),
            range@.len() == j,
            forall|k: int| 0 <= k < j ==> #[trigger] range@[k] == height_series(high@, low@)[k],
        decreases len - j,
    {
        range.push(high[j].sub(low[j]));
        j = j + 1;
    }
    assert(range@ =~= height_series(high@, low@));
    let alpha = ema_alpha_of(n_ema);
    let ema1 = ema_kernel(range.as_slice(), alpha, true);
    let ema2 = ema_kernel(ema1.as_slice(), alpha, true);
    let ratio = defined_ratio_of(ema1.as_slice(), ema2.as_slice());
    let ghost target = defined_rolling_sums(ratio@, n_sum as nat);
    if n_sum == 0 || n_sum > len {
        let early = undefined_vec(len);
        assert(early@ =~= target);
        return early;
    }
    let mut mi = undefined_vec(n_sum - 1);
    let mut i: usize = n_sum - 1;
    while i < len
        invariant
            1 <= n_sum <= len,
            n_sum - 1 <= i <= len,
            ratio@.len() == len,
            target == defined_rolling_sums(ratio@, n_sum as nat),
            mi@.len() == i,
            forall|k: int| 0 <= k < i ==> #[trigger] mi@[k] == target[k],
        decreases len - i,
    {
        mi.push(defined_sum_of(ratio.as_slice(), i + 1 - n_sum, i + 1));
        i = i + 1;
    }
    assert(mi@ =~= target);
    mi
}

// ---------------------------------------------------------------------------
// KST
// ---------------------------------------------------------------------------

/// The rate of change over `n` samples: the change from the sample `n`
/// places back, in percent of it; undefined for the first `n` samples and
/// where that sample is zero.
pub open spec fn roc_series(close: Seq<Fp>, n: nat) -> Seq<Fp> {
    Seq::new(
        close.len(),
        |i: int|
            if i >= n {
                percent_change(close[i - n], close[i], Fp(NAN))
            } else {
                Fp(NAN)
            },
    )
}

pub fn rate_of_change(close: &[Fp], n: usize) -> (out: Vec<Fp>)
    ensures
        out@ == roc_series(close@, n as nat),
{
    let len = close.len();
    let mut out: Vec<Fp> = Vec::new();
    let mut i: usize = 0;
    while i < len
        invariant
            i <= len,
            len == close@.len(),
            out@.len() == i,
            forall|k: int| 0 <= k < i ==> #[trigger] out@[k] == roc_series(close@, n as nat)[k],
        decreases len - i,
    {
        if i >= n {
            out.push(percent_change_of(close[i - n], close[i], Fp(NAN)));
        } else {
            out.push(Fp(NAN));
        }
        i = i + 1;
    }
    assert(out@ =~= roc_series(close@, n as nat));
    out
}

/// The blend of four series with weights one to four, where all four are
/// defined.
pub open spec fn kst_blend(a: Seq<Fp>, b: Seq<Fp>, c: Seq<Fp>, d: Seq<Fp>) -> Seq<Fp> {
    Seq::new(
        a.len(),
        |i: int|
            if !a[i].nan() && !b[i].nan() && !c[i].nan() && !d[i].nan() {
                a[i].add_spec(Fp(TWO).mul_spec(b[i])).add_spec(Fp(THREE).mul_spec(c[i])).add_spec(
                    Fp(FOUR).mul_spec(d[i]),
                )
            } else {
                Fp(NAN)
            },
    )
}

/// A smoothed rate of change: the moving average over `s` samples of the
/// rate of change over `r` samples.
pub open spec fn smoothed_roc(close: Seq<Fp>, r: nat, s: nat) -> Seq<Fp> {
    sma_series(roc_series(close, r), s)
}

/// Returns the know-sure-thing oscillator and its signal, the moving
/// average of the oscillator.
pub fn kst(
    close: &[Fp],
    r1: usize,
    r2: usize,
    r3: usize,
    r4: usize,
    s1: usize,
    s2: usize,
    s3: usize,
    s4: usize,
    n_sig: usize,
) -> (r: (Vec<Fp>, Vec<Fp>))
    ensures
        r.0@ == kst_blend(
            smoothed_roc(close@, r1 as nat, s1 as nat),
            smoothed_roc(close@, r2 as nat, s2 as nat),
            smoothed_roc(close@, r3 as nat, s3 as nat),
            smoothed_roc(close@, r4 as nat, s4 as nat),
        ),
        r.1@ == sma_series(r.0@, n_sig as nat),
{
    let len = close.len();
    let roc1 = rate_of_change(close, r1);
    let roc2 = rate_of_change(close, r2);
    let roc3 = rate_of_change(close, r3);
    let roc4 = rate_of_change(close, r4);
    let rcma1 = sma_kernel(roc1.as_slice(), s1);
    let rcma2 = sma_kernel(roc2.as_slice(), s2);
    let rcma3 = sma_kernel(roc3.as_slice(), s3);
    let rcma4 = sma_kernel(roc4.as_slice(), s4);
    let ghost target = kst_blend(rcma1@, rcma2@, rcma3@, rcma4@);
    let mut kst_values: Vec<Fp> = Vec::new();
    let mut i: usize = 0;
    while i < len
        invariant
            i <= len,
            rcma1@.len() == len,
            rcma2@.len() == len,
            rcma3@.len() == len,
            rcma4@.len() == len,
            target == kst_blend(rcma1@, rcma2@, rcma3@, rcma4@),
            kst_values@.len() == i,
            forall|k: int| 0 <= k < i ==> #[trigger] kst_values@[k] == target[k],
        decreases len - i,
    {
        if !rcma1[i].is_nan() && !rcma2[i].is_nan() && !rcma3[i].is_nan() && !rcma4[i].is_nan() {
            kst_values.push(
                rcma1[i].add(Fp(TWO).mul(rcma2[i])).add(Fp(THREE).mul(rcma3[i])).add(
                    Fp(FOUR).mul(rcma4[i]),
                ),
            );
        } else {
            kst_values.push(Fp(NAN));
        }
        i = i + 1;
    }
    assert(kst_values@ =~= target);
    let signal = sma_kernel(kst_values.as_slice(), n_sig);
    (kst_values, signal)
}

// ---------------------------------------------------------------------------
// Ichimoku
// ---------------------------------------------------------------------------

/// The midpoint of each whole window: the mean of its highest high and its
/// lowest low.
pub open spec fn midpoint_series(high: Seq<Fp>, low: Seq<Fp>, n: nat) -> Seq<Fp> {
    Seq::new(
        high.len(),
        |i: int|
            if warm(n, high.len(), i) {
                max_range(high, i + 1 - n, i + 1).add_spec(min_range(low, i + 1 - n, i + 1))
                    .div_spec(Fp(TWO))
            } else {
                Fp(NAN)
            },
    )
}

/// The mean of two series where both are defined.
pub open spec fn defined_mean(a: Seq<Fp>, b: Seq<Fp>) -> Seq<Fp> {
    Seq::new(
        a.len(),
        |i: int|
            if !a[i].nan() && !b[i].nan() {
                a[i].add_spec(b[i]).div_spec(Fp(TWO))
            } else {
                Fp(NAN)
            },
    )
}

/// A series moved `n` places towards its start; the last `n` places are
/// undefined.
pub open spec fn shifted_back(s: Seq<Fp>, n: nat) -> Seq<Fp> {
    Seq::new(
        s.len(),
        |i: int|
            if i + n < s.len() {
                s[i + n]
            } else {
                Fp(NAN)
            },
    )
}

fn midpoints(high: &[Fp], low: &[Fp], n: usize) -> (out: Vec<Fp>)
    requires
        low@.len() == high@.len(),
    ensures
        out@ == midpoint_series(high@, low@, n as nat),
{
    let len = high.len();
    if n == 0 || n > len {
        let early = undefined_vec(len);
        assert(early@ =~= midpoint_series(high@, low@, n as nat));
        return early;
    }
    let mut out = undefined_vec(n - 1);
    let mut i: usize = n - 1;
    while i < len
        invariant
            1 <= n <= len,
            n - 1 <= i <= len,
            len == high@.len(),
            len == low@.len(),
            out@.len() == i,
            forall|k: int|
                0 <= k < i ==> #[trigger] out@[k] == midpoint_series(high@, low@, n as nat)[k],
        decreases len - i,
    {
        let window_high = max_of(high, i + 1 - n, i + 1);
        let window_low = min_of(low, i + 1 - n, i + 1);
        out.push(window_high.add(window_low).div(Fp(TWO)));
        i = i + 1;
    }
    assert(out@ =~= midpoint_series(high@, low@, n as nat));
    out
}

/// Returns the conversion line, the base line, the two leading spans and
/// the lagging span.
pub fn ichimoku(high: &[Fp], low: &[Fp], close: &[Fp], n1: usize, n2: usize, n3: usize) -> (r: (
    Vec<Fp>,
    Vec<Fp>,
    Vec<Fp>,
    Vec<Fp>,
    Vec<Fp>,
))
    requires
        low@.len() == high@.len(),
        close@.len() == high@.len(),
    ensures
        r.0@ == midpoint_series(high@, low@, n1 as nat),
        r.1@ == midpoint_series(high@, low@, n2 as nat),
        r.2@ == defined_mean(r.0@, r.1@),
        r.3@ == midpoint_series(high@, low@, n3 as nat),
        r.4@ == shifted_back(close@, n2 as nat),
{
    let len = high.len();
    let tenkan = midpoints(high, low, n1);
    let kijun = midpoints(high, low, n2);
    let mut senkou_a: Vec<Fp> = Vec::new();
    let mut chikou: Vec<Fp> = Vec::new();
    let mut i: usize = 0;
    while i < len
        invariant
            i <= len,
            len == close@.len(),
            tenkan@.len() == len,
            kijun@.len() == len,
            senkou_a@.len() == i,
            chikou@.len() == i,
            forall|k: int|
                0 <= k < i ==> #[trigger] senkou_a@[k] == defined_mean(tenkan@, kijun@)[k],
            forall|k: int|
                0 <= k < i ==> #[trigger] chikou@[k] == shifted_back(close@, n2 as nat)[k],
        decreases len - i,
    {
        if !tenkan[i].is_nan() && !kijun[i].is_nan() {
            senkou_a.push(tenkan[i].add(kijun[i]).div(Fp(TWO)));
        } else {
            senkou_a.push(Fp(NAN));
        }
        if n2 < len && i < len - n2 {
            chikou.push(close[i + n2]);
        } else {
            chikou.push(Fp(NAN));
        }
        i = i + 1;
    }
    assert(senkou_a@ =~= defined_mean(tenkan@, kijun@));
    assert(chikou@ =~= shifted_back(close@, n2 as nat));
    let senkou_b = midpoints(high, low, n3);
    (tenkan, kijun, senkou_a, senkou_b, chikou)
}

// ---------------------------------------------------------------------------
// Schaff trend cycle
// ---------------------------------------------------------------------------

/// The place of each sample in the range of the defined samples of its
/// window, in percent; zero where that range is empty, undefined before the
/// first whole window.
pub open spec fn stochastic_of(s: Seq<Fp>, n: nat) -> Seq<Fp> {
    Seq::new(
        s.len(),
        |i: int|
            if warm(n, s.len(), i) {
                let lowest = min_range(s, i + 1 - n, i + 1);
                let highest = max_range(s, i + 1 - n, i + 1);
                if highest.gt_spec(lowest) {
                    Fp(HUNDRED).mul_spec(s[i].sub_spec(lowest)).div_spec(highest.sub_spec(lowest))
                } else {
                    Fp(ZERO)
                }
            } else {
                Fp(NAN)
            },
    )
}

fn stochastic_series(s: &[Fp], n: usize) -> (out: Vec<Fp>)
    ensures
        out@ == stochastic_of(s@, n as nat),
{
    let len = s.len();
    if n == 0 || n > len {
        let early = undefined_vec(len);
        assert(early@ =~= stochastic_of(s@, n as nat));
        return early;
    }
    let mut out = undefined_vec(n - 1);
    let mut i: usize = n - 1;
    while i < len
        invariant
            1 <= n <= len,
            n - 1 <= i <= len,
            len == s@.len(),
            out@.len() == i,
            forall|k: int| 0 <= k < i ==> #[trigger] out@[k] == stochastic_of(s@, n as nat)[k],
        decreases len - i,
    {
        let lowest = min_of(s, i + 1 - n, i + 1);
        let highest = max_of(s, i + 1 - n, i + 1);
        if highest.gt(lowest) {
            out.push(Fp(HUNDRED).mul(s[i].sub(lowest)).div(highest.sub(lowest)));
        } else {
            out.push(Fp(ZERO));
        }
        i = i + 1;
    }
    assert(out@ =~= stochastic_of(s@, n as nat));
    out
}

/// The Schaff trend cycle: the MACD line, taken twice through a stochastic
/// and a plain exponential average.
pub open spec fn schaff_series(
    close: Seq<Fp>,
    n_fast: nat,
    n_slow: nat,
    n_stoch: nat,
    n_smooth: nat,
) -> Seq<Fp> {
    let line = macd_line(close, n_fast, n_slow, false);
    let alpha = ema_alpha(n_smooth);
    let pf = ema_series(stochastic_of(line, n_stoch), alpha, false);
    ema_series(stochastic_of(pf, n_stoch), alpha, false)
}

pub fn schaff_trend_cycle(
    close: &[Fp],
    n_fast: usize,
    n_slow: usize,
    n_stoch: usize,
    n_smooth: usize,
) -> (stc: Vec<Fp>)
    ensures
        stc@ == schaff_series(
            close@,
            n_fast as nat,
            n_slow as nat,
            n_stoch as nat,
            n_smooth as nat,
        ),
{
    let ema_fast = ema_kernel(close, ema_alpha_of(n_fast), false);
    let ema_slow = ema_kernel(close, ema_alpha_of(n_slow), false);
    let line = defined_difference_of(ema_fast.as_slice(), ema_slow.as_slice());
    let pf = stochastic_series(line.as_slice(), n_stoch);
    let alpha_smooth = ema_alpha_of(n_smooth);
    let pf_smooth = ema_kernel(pf.as_slice(), alpha_smooth, false);
    let pff = stochastic_series(pf_smooth.as_slice(), n_stoch);
    ema_kernel(pff.as_slice(), alpha_smooth, false)
}

// ---------------------------------------------------------------------------
// Aroon
// ---------------------------------------------------------------------------

/// The Aroon value at `i` for the extreme `x` of the window that ends there:
/// a hundred times the share of the window's `n` less one steps that lie
/// before the most recent occurrence of the extreme. Undefined where no
/// sample of the window equals `x`.
pub open spec fn aroon_at(s: Seq<Fp>, x: Fp, n: nat, i: int) -> Fp {
    match last_eq_in(s, x, i + 1 - n, i + 1) {
        Some(k) => of_nat((n - 1 - (i - k)) as nat).div_spec(of_nat((n - 1) as nat)).mul_spec(
            Fp(HUNDRED),
        ),
        None => Fp(NAN),
    }
}

/// Aroon up: undefined before the first whole window.
pub open spec fn aroon_up_series(high: Seq<Fp>, n: nat) -> Seq<Fp> {
    Seq::new(
        high.len(),
        |i: int|
            if warm(n, high.len(), i) {
                aroon_at(high, max_range(high, i + 1 - n, i + 1), n, i)
            } else {
                Fp(NAN)
            },
    )
}

/// Aroon down: undefined before the first whole window.
pub open spec fn aroon_down_series(low: Seq<Fp>, n: nat) -> Seq<Fp> {
    Seq::new(
        low.len(),
        |i: int|
            if warm(n, low.len(), i) {
                aroon_at(low, min_range(low, i + 1 - n, i + 1), n, i)
            } else {
                Fp(NAN)
            },
    )
}

fn aroon_value_of(s: &[Fp], x: Fp, n: usize, i: usize) -> (r: Fp)
    requires
        1 <= n,
        n - 1 <= i < s@.len(),
        i < usize::MAX,
    ensures
        r == aroon_at(s@, x, n as nat, i as int),
{
    match last_eq_in_of(s, x, i + 1 - n, i + 1) {
        Some(k) => {
            let periods = i - k;
            Fp::from_usize(n - 1 - periods).div(Fp::from_usize(n - 1)).mul(Fp(HUNDRED))
        },
        None => Fp(NAN),
    }
}

/// Returns Aroon up and Aroon down.
pub fn aroon(high: &[Fp], low: &[Fp], n: usize) -> (r: (Vec<Fp>, Vec<Fp>))
    requires
        low@.len() == high@.len(),
    ensures
        r.0@ == aroon_up_series(high@, n as nat),
        r.1@ == aroon_down_series(low@, n as nat),
{
    let len = high.len();
    if n == 0 || n > len {
        let up = undefined_vec(len);
        let down = undefined_vec(len);
        assert(up@ =~= aroon_up_series(high@, n as nat));
        assert(down@ =~= aroon_down_series(low@, n as nat));
        return (up, down);
    }
    let mut up = undefined_vec(n - 1);
    let mut down = undefined_vec(n - 1);
    let mut i: usize = n - 1;
    while i < len
        invariant
            1 <= n <= len,
            n - 1 <= i <= len,
            len == high@.len(),
            len == low@.len(),
            up@.len() == i,
            down@.len() == i,
            forall|k: int| 0 <= k < i ==> #[trigger] up@[k] == aroon_up_series(high@, n as nat)[k],
            forall|k: int|
                0 <= k < i ==> #[trigger] down@[k] == aroon_down_series(low@, n as nat)[k],
        decreases len - i,
    {
        let highest = max_of(high, i + 1 - n, i + 1);
        let lowest = min_of(low, i + 1 - n, i + 1);
        up.push(aroon_value_of(high, highest, n, i));
        down.push(aroon_value_of(low, lowest, n, i));
        i = i + 1;
    }
    assert(up@ =~= aroon_up_series(high@, n as nat));
    assert(down@ =~= aroon_down_series(low@, n as nat));
    (up, down)
}

} // verus!
