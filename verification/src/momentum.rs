//! Bulk momentum indicators, each over a whole series.

use vstd::prelude::*;
use crate::fp::{Fp, NAN, ZERO, ONE, TWO, FOUR, SEVEN, FIFTY, HUNDRED, NEG_HUNDRED, of_nat};
use crate::series::{sum_range, sum_of, max_range, min_range, max_of, min_of, undefined_vec};
use crate::helpers::{
    warm, sma_series, sma_kernel, nan_aware_sma_series, sma_kernel_nan_aware, ema_series,
    ema_kernel, rolling_mins, rolling_min, rolling_maxs, rolling_max, rolling_sums, rolling_sum,
    true_ranges, true_range,
};
use crate::trend::{
    ema_alpha_of, defined_difference, defined_difference_of, roc_series, rate_of_change,
};
use crate::formulas::{
    adaptive_constant, ema_alpha, gain_of, loss_of, percent_k, share_of_range, smooth, smoothed,
    strength_index, strength_index_of, wilder_alpha,
};

verus! {

// ---------------------------------------------------------------------------
// RSI
// ---------------------------------------------------------------------------

/// The gain of every sample over the one before; zero for the first.
pub open spec fn gain_series(close: Seq<Fp>) -> Seq<Fp> {
    Seq::new(
        close.len(),
        |i: int|
            if i >= 1 {
                gain_of(close[i].sub_spec(close[i - 1]))
            } else {
                Fp(ZERO)
            },
    )
}

/// The loss of every sample against the one before; zero for the first.
pub open spec fn loss_series(close: Seq<Fp>) -> Seq<Fp> {
    Seq::new(
        close.len(),
        |i: int|
            if i >= 1 {
                loss_of(close[i].sub_spec(close[i - 1]))
            } else {
                Fp(ZERO)
            },
    )
}

/// The average of a series of changes at `i`, seeded at position `n` by the
/// mean of the changes at one to `n`, and smoothed after it with the
/// constant one over `n`.
pub open spec fn seeded_average(x: Seq<Fp>, n: nat, i: int) -> Fp
    decreases i,
{
    if i <= n || i <= 0 {
        sum_range(x, 1, n as int + 1).div_spec(of_nat(n))
    } else {
        smooth(wilder_alpha(n), x[i], seeded_average(x, n, i - 1))
    }
}

/// The relative strength index at `i`: undefined for the first `n` samples,
/// and everywhere for a window of zero or a series no longer than the
/// window.
pub open spec fn rsi_at(close: Seq<Fp>, n: nat, i: int) -> Fp {
    if 1 <= n < close.len() && i >= n {
        strength_index(
            seeded_average(gain_series(close), n, i),
            seeded_average(loss_series(close), n, i),
        )
    } else {
        Fp(NAN)
    }
}

pub open spec fn rsi_series(close: Seq<Fp>, n: nat) -> Seq<Fp> {
    Seq::new(close.len(), |i: int| rsi_at(close, n, i))
}

fn gains_and_losses(close: &[Fp]) -> (r: (Vec<Fp>, Vec<Fp>))
    ensures
        r.0@ == gain_series(close@),
        r.1@ == loss_series(close@),
{
    let len = close.len();
    let mut gains: Vec<Fp> = Vec::new();
    let mut losses: Vec<Fp> = Vec::new();
    let mut i: usize = 0;
    while i < len
        invariant
            i <= len,
            len == close@.len(),
            gains@.len() == i,
            losses@.len() == i,
            forall|k: int| 0 <= k < i ==> #[trigger] gains@[k] == gain_series(close@)[k],
            forall|k: int| 0 <= k < i ==> #[trigger] losses@[k] == loss_series(close@)[k],
        decreases len - i,
    {
        if i >= 1 {
            let delta = close[i].sub(close[i - 1]);
            if delta.gt(Fp(ZERO)) {
                gains.push(delta);
                losses.push(Fp(ZERO));
            } else {
                gains.push(Fp(ZERO));
                losses.push(delta.neg());
            }
        } else {
            gains.push(Fp(ZERO));
            losses.push(Fp(ZERO));
        }
        i = i + 1;
    }
    assert(gains@ =~= gain_series(close@));
    assert(losses@ =~= loss_series(close@));
    (gains, losses)
}

pub fn rsi(close: &[Fp], n: usize) -> (result: Vec<Fp>)
    ensures
        result@ == rsi_series(close@, n as nat),
{
    let len = close.len();
    if n == 0 || len <= n {
        let early = undefined_vec(len);
        assert(early@ =~= rsi_series(close@, n as nat));
        return early;
    }
    let (gains, losses) = gains_and_losses(close);
    let w = Fp::from_usize(n);
    let alpha = Fp(ONE).div(w);
    let mut avg_gain = sum_of(gains.as_slice(), 1, n + 1).div(w);
    let mut avg_loss = sum_of(losses.as_slice(), 1, n + 1).div(w);
    let mut result = undefined_vec(n);
    result.push(strength_index_of(avg_gain, avg_loss));
    let mut i: usize = n + 1;
    while i < len
        invariant
            1 <= n < len,
            n + 1 <= i <= len,
            len == close@.len(),
            gains@ == gain_series(close@),
            losses@ == loss_series(close@),
            alpha == wilder_alpha(n as nat),
            avg_gain == seeded_average(gains@, n as nat, i - 1),
            avg_loss == seeded_average(losses@, n as nat, i - 1),
            result@.len() == i,
            forall|k: int| 0 <= k < i ==> #[trigger] result@[k] == rsi_at(close@, n as nat, k),
        decreases len - i,
    {
        avg_gain = smoothed(alpha, gains[i], avg_gain);
        avg_loss = smoothed(alpha, losses[i], avg_loss);
        result.push(strength_index_of(avg_gain, avg_loss));
        i = i + 1;
    }
    assert(result@ =~= rsi_series(close@, n as nat));
    result
}

// ---------------------------------------------------------------------------
// Stochastic oscillator, Williams %R
// ---------------------------------------------------------------------------

/// %K of every bar: the place of the close in the range of its window, in
/// percent; fifty where the range is zero, undefined before the first whole
/// window.
pub open spec fn percent_k_series(high: Seq<Fp>, low: Seq<Fp>, close: Seq<Fp>, n: nat) -> Seq<Fp> {
    Seq::new(
        high.len(),
        |i: int|
            if warm(n, high.len(), i) {
                let lowest = rolling_mins(low, n)[i];
                let range = rolling_maxs(high, n)[i].sub_spec(lowest);
                if range.ne_spec(Fp(ZERO)) {
                    Fp(HUNDRED).mul_spec(close[i].sub_spec(lowest)).div_spec(range)
                } else {
                    Fp(FIFTY)
                }
            } else {
                Fp(NAN)
            },
    )
}

/// Returns %K and %D, the moving average of %K over `d` bars.
pub fn stochastic(high: &[Fp], low: &[Fp], close: &[Fp], n: usize, d: usize) -> (r: (
    Vec<Fp>,
    Vec<Fp>,
))
    requires
        low@.len() == high@.len(),
        close@.len() == high@.len(),
    ensures
        r.0@ == percent_k_series(high@, low@, close@, n as nat),
        r.1@ == nan_aware_sma_series(r.0@, d as nat),
{
    let len = high.len();
    let lowest_low = rolling_min(low, n);
    let highest_high = rolling_max(high, n);
    let ghost target = percent_k_series(high@, low@, close@, n as nat);
    let mut percent_k: Vec<Fp> = Vec::new();
    let mut i: usize = 0;
    while i < len
        invariant
            i <= len,
            len == high@.len(),
            len == low@.len(),
            len == close@.len(),
            lowest_low@ == rolling_mins(low@, n as nat),
            highest_high@ == rolling_maxs(high@, n as nat),
            target == percent_k_series(high@, low@, close@, n as nat),
            percent_k@.len() == i,
            forall|k: int| 0 <= k < i ==> #[trigger] percent_k@[k] == target[k],
        decreases len - i,
    {
        if n >= 1 && i >= n - 1 {
            let range = highest_high[i].sub(lowest_low[i]);
            if range.ne(Fp(ZERO)) {
                percent_k.push(Fp(HUNDRED).mul(close[i].sub(lowest_low[i])).div(range));
            } else {
                percent_k.push(Fp(FIFTY));
            }
        } else {
            percent_k.push(Fp(NAN));
        }
        i = i + 1;
    }
    assert(percent_k@ =~= target);
    let percent_d = sma_kernel_nan_aware(percent_k.as_slice(), d);
    (percent_k, percent_d)
}

/// Williams %R of every bar: the distance of the close below the window's
/// high, as a negative percentage of the range; minus a hundred where the
/// range is zero, undefined before the first whole window.
pub open spec fn williams_r_series(high: Seq<Fp>, low: Seq<Fp>, close: Seq<Fp>, n: nat) -> Seq<Fp> {
    Seq::new(
        high.len(),
        |i: int|
            if warm(n, high.len(), i) {
                let highest = rolling_maxs(high, n)[i];
                let range = highest.sub_spec(rolling_mins(low, n)[i]);
                if range.ne_spec(Fp(ZERO)) {
                    Fp(NEG_HUNDRED).mul_spec(highest.sub_spec(close[i])).div_spec(range)
                } else {
                    Fp(NEG_HUNDRED)
                }
            } else {
                Fp(NAN)
            },
    )
}

pub fn williams_r(high: &[Fp], low: &[Fp], close: &[Fp], n: usize) -> (wr: Vec<Fp>)
    requires
        low@.len() == high@.len(),
        close@.len() == high@.len(),
    ensures
        wr@ == williams_r_series(high@, low@, close@, n as nat),
{
    let len = high.len();
    let lowest_low = rolling_min(low, n);
    let highest_high = rolling_max(high, n);
    let ghost target = williams_r_series(high@, low@, close@, n as nat);
    let mut wr: Vec<Fp> = Vec::new();
    let mut i: usize = 0;
    while i < len
        invariant
            i <= len,
            len == high@.len(),
            len == low@.len(),
            len == close@.len(),
            lowest_low@ == rolling_mins(low@, n as nat),
            highest_high@ == rolling_maxs(high@, n as nat),
            target == williams_r_series(high@, low@, close@, n as nat),
            wr@.len() == i,
            forall|k: int| 0 <= k < i ==> #[trigger] wr@[k] == target[k],
        decreases len - i,
    {
        if n >= 1 && i >= n - 1 {
            let range = highest_high[i].sub(lowest_low[i]);
            if range.ne(Fp(ZERO)) {
                wr.push(Fp(NEG_HUNDRED).mul(highest_high[i].sub(close[i])).div(range));
            } else {
                wr.push(Fp(NEG_HUNDRED));
            }
        } else {
            wr.push(Fp(NAN));
        }
        i = i + 1;
    }
    assert(wr@ =~= target);
    wr
}

// ---------------------------------------------------------------------------
// Percentage price oscillator, percentage volume oscillator
// ---------------------------------------------------------------------------

/// The fast series less the slow one, in percent of the slow one, where the
/// slow one is defined and not zero.
pub open spec fn percent_gap(fast: Seq<Fp>, slow: Seq<Fp>) -> Seq<Fp> {
    Seq::new(
        slow.len(),
        |i: int|
            if slow[i].ne_spec(Fp(ZERO)) && !slow[i].nan() {
                fast[i].sub_spec(slow[i]).div_spec(slow[i]).mul_spec(Fp(HUNDRED))
            } else {
                Fp(NAN)
            },
    )
}

/// The oscillator line: the gap between the plain fast and slow averages.
pub open spec fn oscillator_line(data: Seq<Fp>, n_fast: nat, n_slow: nat) -> Seq<Fp> {
    percent_gap(
        ema_series(data, ema_alpha(n_fast), false),
        ema_series(data, ema_alpha(n_slow), false),
    )
}

fn oscillator(data: &[Fp], n_fast: usize, n_slow: usize, n_signal: usize, adjusted: bool) -> (r: (
    Vec<Fp>,
    Vec<Fp>,
    Vec<Fp>,
))
    ensures
        r.0@ == oscillator_line(data@, n_fast as nat, n_slow as nat),
        r.1@ == ema_series(r.0@, ema_alpha(n_signal as nat), adjusted),
        r.2@ == defined_difference(r.0@, r.1@),
{
    let len = data.len();
    let ema_fast = ema_kernel(data, ema_alpha_of(n_fast), false);
    let ema_slow = ema_kernel(data, ema_alpha_of(n_slow), false);
    let ghost target = percent_gap(ema_fast@, ema_slow@);
    let mut line: Vec<Fp> = Vec::new();
    let mut i: usize = 0;
    while i < len
        invariant
            i <= len,
            ema_fast@.len() == len,
            ema_slow@.len() == len,
            target == percent_gap(ema_fast@, ema_slow@),
            line@.len() == i,
            forall|k: int| 0 <= k < i ==> #[trigger] line@[k] == target[k],
        decreases len - i,
    {
        if ema_slow[i].ne(Fp(ZERO)) && !ema_slow[i].is_nan() {
            line.push(ema_fast[i].sub(ema_slow[i]).div(ema_slow[i]).mul(Fp(HUNDRED)));
        } else {
            line.push(Fp(NAN));
        }
        i = i + 1;
    }
    assert(line@ =~= target);
    let signal = ema_kernel(line.as_slice(), ema_alpha_of(n_signal), adjusted);
    let histogram = defined_difference_of(line.as_slice(), signal.as_slice());
    (line, signal, histogram)
}

/// Returns the line, its signal and the histogram. The signal is the plain
/// exponential average of the line.
pub fn ppo(close: &[Fp], n_fast: usize, n_slow: usize, n_signal: usize) -> (r: (
    Vec<Fp>,
    Vec<Fp>,
    Vec<Fp>,
))
    ensures
        r.0@ == oscillator_line(close@, n_fast as nat, n_slow as nat),
        r.1@ == ema_series(r.0@, ema_alpha(n_signal as nat), false),
        r.2@ == defined_difference(r.0@, r.1@),
{
    oscillator(close, n_fast, n_slow, n_signal, false)
}

/// Returns the line, its signal and the histogram. The signal is the
/// adjusted exponential average of the line.
pub fn pvo(volume: &[Fp], n_fast: usize, n_slow: usize, n_signal: usize) -> (r: (
    Vec<Fp>,
    Vec<Fp>,
    Vec<Fp>,
))
    ensures
        r.0@ == oscillator_line(volume@, n_fast as nat, n_slow as nat),
        r.1@ == ema_series(r.0@, ema_alpha(n_signal as nat), true),
        r.2@ == defined_difference(r.0@, r.1@),
{
    oscillator(volume, n_fast, n_slow, n_signal, true)
}

// ---------------------------------------------------------------------------
// Ultimate oscillator
// ---------------------------------------------------------------------------

/// The buying pressure of every bar: the close less the lower of the low
/// and the previous close; zero for the first bar.
pub open spec fn pressure_series(low: Seq<Fp>, close: Seq<Fp>) -> Seq<Fp> {
    Seq::new(
        low.len(),
        |i: int|
            if i >= 1 {
                close[i].sub_spec(low[i].min_spec(close[i - 1]))
            } else {
                Fp(ZERO)
            },
    )
}

/// Whether a sum is defined and not zero.
pub open spec fn usable(x: Fp) -> bool {
    x.ne_spec(Fp(ZERO)) && !x.nan()
}

/// The ultimate oscillator at `i`, from the rolling sums of the buying
/// pressure and the true range over the three periods: the blend of the
/// three ratios with weights four, two and one, in percent. Undefined before
/// the first whole window of the longest period and where a sum of true
/// ranges is undefined or zero.
pub open spec fn ultimate_at(bp: Seq<Fp>, tr: Seq<Fp>, n1: nat, n2: nat, n3: nat, i: int) -> Fp {
    let tr1 = rolling_sums(tr, n1)[i];
    let tr2 = rolling_sums(tr, n2)[i];
    let tr3 = rolling_sums(tr, n3)[i];
    if n3 >= 1 && i >= n3 - 1 && usable(tr1) && usable(tr2) && usable(tr3) {
        let avg1 = rolling_sums(bp, n1)[i].div_spec(tr1);
        let avg2 = rolling_sums(bp, n2)[i].div_spec(tr2);
        let avg3 = rolling_sums(bp, n3)[i].div_spec(tr3);
        Fp(HUNDRED).mul_spec(
            Fp(FOUR).mul_spec(avg1).add_spec(Fp(TWO).mul_spec(avg2)).add_spec(avg3),
        ).div_spec(Fp(SEVEN))
    } else {
        Fp(NAN)
    }
}

pub open spec fn ultimate_series(
    high: Seq<Fp>,
    low: Seq<Fp>,
    close: Seq<Fp>,
    n1: nat,
    n2: nat,
    n3: nat,
) -> Seq<Fp> {
    Seq::new(
        high.len(),
        |i: int|
            ultimate_at(pressure_series(low, close), true_ranges(high, low, close), n1, n2, n3, i),
    )
}

pub fn ultimate_oscillator(
    high: &[Fp],
    low: &[Fp],
    close: &[Fp],
    n1: usize,
    n2: usize,
    n3: usize,
) -> (uo: Vec<Fp>)
    requires
        low@.len() == high@.len(),
        close@.len() == high@.len(),
    ensures
        uo@ == ultimate_series(high@, low@, close@, n1 as nat, n2 as nat, n3 as nat),
{
    let len = high.len();
    let mut bp: Vec<Fp> = Vec::new();
    let mut j: usize = 0;
    while j < len
        invariant
            j <= len,
            len == low@.len(),
            len == close@.len(),
            bp@.len() == j,
            forall|k: int| 0 <= k < j ==> #[trigger] bp@[k] == pressure_series(low@, close@)[k],
        decreases len - j,
    {
        if j >= 1 {
            bp.push(close[j].sub(low[j].min(close[j - 1])));
        } else {
            bp.push(Fp(ZERO));
        }
        j = j + 1;
    }
    assert(bp@ =~= pressure_series(low@, close@));
    let tr = true_range(high, low, close);
    let sum_bp1 = rolling_sum(bp.as_slice(), n1);
    let sum_tr1 = rolling_sum(tr.as_slice(), n1);
    let sum_bp2 = rolling_sum(bp.as_slice(), n2);
    let sum_tr2 = rolling_sum(tr.as_slice(), n2);
    let sum_bp3 = rolling_sum(bp.as_slice(), n3);
    let sum_tr3 = rolling_sum(tr.as_slice(), n3);
    let mut uo: Vec<Fp> = Vec::new();
    let mut i: usize = 0;
    while i < len
        invariant
            i <= len,
            bp@.len() == len,
            tr@.len() == len,
            sum_bp1@ == rolling_sums(bp@, n1 as nat),
            sum_tr1@ == rolling_sums(tr@, n1 as nat),
            sum_bp2@ == rolling_sums(bp@, n2 as nat),
            sum_tr2@ == rolling_sums(tr@, n2 as nat),
            sum_bp3@ == rolling_sums(bp@, n3 as nat),
            sum_tr3@ == rolling_sums(tr@, n3 as nat),
            uo@.len() == i,
            forall|k: int|
                0 <= k < i ==> #[trigger] uo@[k] == ultimate_at(
                    bp@,
                    tr@,
                    n1 as nat,
                    n2 as nat,
                    n3 as nat,
                    k,
                ),
        decreases len - i,
    {
        if n3 >= 1 && i >= n3 - 1 && sum_tr1[i].ne(Fp(ZERO)) && sum_tr2[i].ne(Fp(ZERO))
            && sum_tr3[i].ne(Fp(ZERO)) && !sum_tr1[i].is_nan() && !sum_tr2[i].is_nan()
            && !sum_tr3[i].is_nan() {
            let avg1 = sum_bp1[i].div(sum_tr1[i]);
            let avg2 = sum_bp2[i].div(sum_tr2[i]);
            let avg3 = sum_bp3[i].div(sum_tr3[i]);
            uo.push(
                Fp(HUNDRED).mul(Fp(FOUR).mul(avg1).add(Fp(TWO).mul(avg2)).add(avg3)).div(
                    Fp(SEVEN),
                ),
            );
        } else {
            uo.push(Fp(NAN));
        }
        i = i + 1;
    }
    assert(uo@ =~= ultimate_series(high@, low@, close@, n1 as nat, n2 as nat, n3 as nat));
    uo
}

// ---------------------------------------------------------------------------
// Stochastic RSI
// ---------------------------------------------------------------------------

/// The stochastic RSI at `i`: the place of the index in the range of the
/// defined values of its window, as a share of one. It is undefined before
/// two windows less two samples have passed, where the index is undefined,
/// and where the window holds no defined value; it is zero where the range
/// is empty.
pub open spec fn stochastic_rsi_at(rsi: Seq<Fp>, n: nat, i: int) -> Fp {
    let lowest = min_range(rsi, i + 1 - n, i + 1);
    let highest = max_range(rsi, i + 1 - n, i + 1);
    if n >= 1 && i - (n - 1) >= n - 1 && !rsi[i].nan() && !lowest.infinite()
        && !highest.infinite() {
        share_of_range(rsi[i], lowest, highest)
    } else {
        Fp(NAN)
    }
}

pub open spec fn stochastic_rsi_series(close: Seq<Fp>, n: nat) -> Seq<Fp> {
    Seq::new(close.len(), |i: int| stochastic_rsi_at(rsi_series(close, n), n, i))
}

/// Returns the stochastic RSI, its moving average %K over `k` samples, and
/// the moving average %D of %K over `d` samples.
pub fn stochastic_rsi(
    close: &[Fp],
    n: usize,
    k: usize,
    d: usize,
) -> (r: (Vec<Fp>, Vec<Fp>, Vec<Fp>))
    ensures
        r.0@ == stochastic_rsi_series(close@, n as nat),
        r.1@ == nan_aware_sma_series(r.0@, k as nat),
        r.2@ == nan_aware_sma_series(r.1@, d as nat),
{
    let len = close.len();
    let rsi_values = rsi(close, n);
    let mut stoch_rsi: Vec<Fp> = Vec::new();
    let mut i: usize = 0;
    while i < len
        invariant
            i <= len,
            len == close@.len(),
            rsi_values@ == rsi_series(close@, n as nat),
            stoch_rsi@.len() == i,
            forall|j: int|
                0 <= j < i ==> #[trigger] stoch_rsi@[j] == stochastic_rsi_at(
                    rsi_values@,
                    n as nat,
                    j,
                ),
        decreases len - i,
    {
        let mut value = Fp(NAN);
        if n >= 1 && i >= n - 1 && i - (n - 1) >= n - 1 {
            let low_rsi = min_of(rsi_values.as_slice(), i + 1 - n, i + 1);
            let high_rsi = max_of(rsi_values.as_slice(), i + 1 - n, i + 1);
            if !rsi_values[i].is_nan() && !low_rsi.is_infinite() && !high_rsi.is_infinite() {
                if high_rsi.gt(low_rsi) {
                    value = rsi_values[i].sub(low_rsi).div(high_rsi.sub(low_rsi));
                } else {
                    value = Fp(ZERO);
                }
            }
        }
        stoch_rsi.push(value);
        i = i + 1;
    }
    assert(stoch_rsi@ =~= stochastic_rsi_series(close@, n as nat));
    let stoch_k = sma_kernel_nan_aware(stoch_rsi.as_slice(), k);
    let stoch_d = sma_kernel_nan_aware(stoch_k.as_slice(), d);
    (stoch_rsi, stoch_k, stoch_d)
}

// ---------------------------------------------------------------------------
// True strength index
// ---------------------------------------------------------------------------

/// The change of every sample from the one before; zero for the first.
pub open spec fn change_series(close: Seq<Fp>) -> Seq<Fp> {
    Seq::new(
        close.len(),
        |i: int|
            if i >= 1 {
                close[i].sub_spec(close[i - 1])
            } else {
                Fp(ZERO)
            },
    )
}

/// The absolute value of every sample.
pub open spec fn abs_series(s: Seq<Fp>) -> Seq<Fp> {
    Seq::new(s.len(), |i: int| s[i].abs_spec())
}

/// A series taken through two adjusted exponential averages.
pub open spec fn double_smoothed(s: Seq<Fp>, r: nat, n: nat) -> Seq<Fp> {
    ema_series(ema_series(s, ema_alpha(r), true), ema_alpha(n), true)
}

/// A hundred times one series over another, where the second is defined and
/// not zero.
pub open spec fn percent_ratio(a: Seq<Fp>, b: Seq<Fp>) -> Seq<Fp> {
    Seq::new(
        b.len(),
        |i: int|
            if usable(b[i]) {
                Fp(HUNDRED).mul_spec(a[i].div_spec(b[i]))
            } else {
                Fp(NAN)
            },
    )
}

pub open spec fn tsi_series(close: Seq<Fp>, r: nat, s: nat) -> Seq<Fp> {
    percent_ratio(
        double_smoothed(change_series(close), r, s),
        double_smoothed(abs_series(change_series(close)), r, s),
    )
}

pub fn tsi(close: &[Fp], r: usize, s: usize) -> (result: Vec<Fp>)
    ensures
        result@ == tsi_series(close@, r as nat, s as nat),
{
    let len = close.len();
    let mut price_change: Vec<Fp> = Vec::new();
    let mut abs_price_change: Vec<Fp> = Vec::new();
    let mut j: usize = 0;
    while j < len
        invariant
            j <= len,
            len == close@.len(),
            price_change@.len() == j,
            abs_price_change@.len() == j,
            forall|k: int| 0 <= k < j ==> #[trigger] price_change@[k] == change_series(close@)[k],
            forall|k: int|
                0 <= k < j ==> #[trigger] abs_price_change@[k] == abs_series(
                    change_series(close@),
                )[k],
        decreases len - j,
    {
        let change = if j >= 1 {
            close[j].sub(close[j - 1])
        } else {
            Fp(ZERO)
        };
        price_change.push(change);
        abs_price_change.push(change.abs());
        j = j + 1;
    }
    assert(price_change@ =~= change_series(close@));
    assert(abs_price_change@ =~= abs_series(change_series(close@)));
    let alpha_long = ema_alpha_of(r);
    let alpha_short = ema_alpha_of(s);
    let ema1_pc = ema_kernel(price_change.as_slice(), alpha_long, true);
    let ema2_pc = ema_kernel(ema1_pc.as_slice(), alpha_short, true);
    let ema1_abspc = ema_kernel(abs_price_change.as_slice(), alpha_long, true);
    let ema2_abspc = ema_kernel(ema1_abspc.as_slice(), alpha_short, true);
    let ghost target = percent_ratio(ema2_pc@, ema2_abspc@);
    let mut result: Vec<Fp> = Vec::new();
    let mut i: usize = 0;
    while i < len
        invariant
            i <= len,
            ema2_pc@.len() == len,
            ema2_abspc@.len() == len,
            target == percent_ratio(ema2_pc@, ema2_abspc@),
            result@.len() == i,
            forall|k: int| 0 <= k < i ==> #[trigger] result@[k] == target[k],
        decreases len - i,
    {
        if ema2_abspc[i].ne(Fp(ZERO)) && !ema2_abspc[i].is_nan() {
            result.push(Fp(HUNDRED).mul(ema2_pc[i].div(ema2_abspc[i])));
        } else {
            result.push(Fp(NAN));
        }
        i = i + 1;
    }
    assert(result@ =~= target);
    result
}

// ---------------------------------------------------------------------------
// Awesome oscillator
// ---------------------------------------------------------------------------

/// The midpoint of every bar.
pub open spec fn bar_midpoints(high: Seq<Fp>, low: Seq<Fp>) -> Seq<Fp> {
    Seq::new(high.len(), |i: int| high[i].add_spec(low[i]).div_spec(Fp(TWO)))
}

pub open spec fn awesome_series(high: Seq<Fp>, low: Seq<Fp>, n1: nat, n2: nat) -> Seq<Fp> {
    defined_difference(
        sma_series(bar_midpoints(high, low), n1),
        sma_series(bar_midpoints(high, low), n2),
    )
}

pub fn awesome_oscillator(high: &[Fp], low: &[Fp], n1: usize, n2: usize) -> (ao: Vec<Fp>)
    requires
        low@.len() == high@.len(),
    ensures
        ao@ == awesome_series(high@, low@, n1 as nat, n2 as nat),
{
    let len = high.len();
    let mut midpoint: Vec<Fp> = Vec::new();
    let mut i: usize = 0;
    while i < len
        invariant
            i <= len,
            len == high@.len(),
            len == low@.len(),
            midpoint@.len() == i,
            forall|k: int| 0 <= k < i ==> #[trigger] midpoint@[k] == bar_midpoints(high@, low@)[k],
        decreases len - i,
    {
        midpoint.push(high[i].add(low[i]).div(Fp(TWO)));
        i = i + 1;
    }
    assert(midpoint@ =~= bar_midpoints(high@, low@));
    let sma_fast = sma_kernel(midpoint.as_slice(), n1);
    let sma_slow = sma_kernel(midpoint.as_slice(), n2);
    defined_difference_of(sma_fast.as_slice(), sma_slow.as_slice())
}

// ---------------------------------------------------------------------------
// Kaufman's adaptive moving average
// ---------------------------------------------------------------------------

/// The absolute change of every sample from the one before; zero for the
/// first.
pub open spec fn abs_change_series(close: Seq<Fp>) -> Seq<Fp> {
    abs_series(change_series(close))
}

/// The efficiency ratio at `i`: the distance covered over `n` samples, over
/// the path's length; zero where the path has none.
pub open spec fn efficiency_at(close: Seq<Fp>, n: nat, i: int) -> Fp {
    let direction = close[i].sub_spec(close[i - n]).abs_spec();
    let volatility = sum_range(abs_change_series(close), i + 1 - n, i + 1);
    if volatility.ne_spec(Fp(ZERO)) {
        direction.div_spec(volatility)
    } else {
        Fp(ZERO)
    }
}

/// The smoothing constant at `i`; undefined where the efficiency ratio is.
pub open spec fn kama_constant_at(close: Seq<Fp>, n: nat, fast_sc: Fp, slow_sc: Fp, i: int) -> Fp {
    let er = efficiency_at(close, n, i);
    if er.nan() {
        Fp(NAN)
    } else {
        adaptive_constant(er, fast_sc, slow_sc)
    }
}

/// The adaptive average at `i`. It is undefined before position `n` less
/// one, where the close seeds it; each later value moves from the previous
/// one towards the close by the smoothing constant, and is undefined where
/// that constant is.
pub open spec fn kama_at(close: Seq<Fp>, n: nat, fast_sc: Fp, slow_sc: Fp, i: int) -> Fp
    decreases i,
{
    if n == 0 || close.len() <= n || i < n - 1 {
        Fp(NAN)
    } else if i == n - 1 {
        close[i]
    } else {
        let sc = kama_constant_at(close, n, fast_sc, slow_sc, i);
        let prev = kama_at(close, n, fast_sc, slow_sc, i - 1);
        if sc.nan() {
            Fp(NAN)
        } else {
            prev.add_spec(sc.mul_spec(close[i].sub_spec(prev)))
        }
    }
}

pub open spec fn kama_series(close: Seq<Fp>, n: nat, n_fast: nat, n_slow: nat) -> Seq<Fp> {
    Seq::new(close.len(), |i: int| kama_at(close, n, ema_alpha(n_fast), ema_alpha(n_slow), i))
}

pub fn kama(close: &[Fp], n: usize, n_fast: usize, n_slow: usize) -> (result: Vec<Fp>)
    ensures
        result@ == kama_series(close@, n as nat, n_fast as nat, n_slow as nat),
{
    let len = close.len();
    if n == 0 || len <= n {
        let early = undefined_vec(len);
        assert(early@ =~= kama_series(close@, n as nat, n_fast as nat, n_slow as nat));
        return early;
    }
    let mut diffs: Vec<Fp> = Vec::new();
    let mut j: usize = 0;
    while j < len
        invariant
            j <= len,
            len == close@.len(),
            diffs@.len() == j,
            forall|k: int| 0 <= k < j ==> #[trigger] diffs@[k] == abs_change_series(close@)[k],
        decreases len - j,
    {
        if j >= 1 {
            diffs.push(close[j].sub(close[j - 1]).abs());
        } else {
            diffs.push(Fp(ZERO));
        }
        j = j + 1;
    }
    assert(diffs@ =~= abs_change_series(close@));
    let fast_sc = ema_alpha_of(n_fast);
    let slow_sc = ema_alpha_of(n_slow);
    let mut result = undefined_vec(n - 1);
    result.push(close[n - 1]);
    let mut i: usize = n;
    while i < len
        invariant
            1 <= n <= i <= len,
            n < len,
            len == close@.len(),
            diffs@ == abs_change_series(close@),
            fast_sc == ema_alpha(n_fast as nat),
            slow_sc == ema_alpha(n_slow as nat),
            result@.len() == i,
            forall|k: int|
                0 <= k < i ==> #[trigger] result@[k] == kama_at(
                    close@,
                    n as nat,
                    fast_sc,
                    slow_sc,
                    k,
                ),
        decreases len - i,
    {
        let direction = close[i].sub(close[i - n]).abs();
        let volatility = sum_of(diffs.as_slice(), i + 1 - n, i + 1);
        let er = if volatility.ne(Fp(ZERO)) {
            direction.div(volatility)
        } else {
            Fp(ZERO)
        };
        let mut value = Fp(NAN);
        if !er.is_nan() {
            let sc = er.mul(fast_sc.sub(slow_sc)).add(slow_sc).sq();
            if !sc.is_nan() {
                let prev = result[i - 1];
                value = prev.add(sc.mul(close[i].sub(prev)));
            }
        }
        result.push(value);
        i = i + 1;
    }
    assert(result@ =~= kama_series(close@, n as nat, n_fast as nat, n_slow as nat));
    result
}

// ---------------------------------------------------------------------------
// Rate of change, momentum
// ---------------------------------------------------------------------------

/// Rate of change over `n` samples.
pub fn roc(close: &[Fp], n: usize) -> (result: Vec<Fp>)
    ensures
        result@ == roc_series(close@, n as nat),
{
    rate_of_change(close, n)
}

/// The change of every sample from the one `n` places back; undefined for
/// the first `n` samples.
pub open spec fn momentum_series(close: Seq<Fp>, n: nat) -> Seq<Fp> {
    Seq::new(
        close.len(),
        |i: int|
            if i >= n {
                close[i].sub_spec(close[i - n])
            } else {
                Fp(NAN)
            },
    )
}

pub fn momentum(close: &[Fp], n: usize) -> (result: Vec<Fp>)
    ensures
        result@ == momentum_series(close@, n as nat),
{
    let len = close.len();
    let mut result: Vec<Fp> = Vec::new();
    let mut i: usize = 0;
    while i < len
        invariant
            i <= len,
            len == close@.len(),
            result@.len() == i,
            forall|k: int|
                0 <= k < i ==> #[trigger] result@[k] == momentum_series(close@, n as nat)[k],
        decreases len - i,
    {
        if i >= n {
            result.push(close[i].sub(close[i - n]));
        } else {
            result.push(Fp(NAN));
        }
        i = i + 1;
    }
    assert(result@ =~= momentum_series(close@, n as nat));
    result
}

} // verus!
