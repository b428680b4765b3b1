//! Bulk volatility indicators, each over a whole series.

use vstd::prelude::*;
use crate::fp::{Fp, NAN, ZERO, TWO, NEG_TWO, THREE, FOUR, HUNDRED, of_nat};
use crate::series::{sum_range, sum_of, max_range, max_of, undefined_vec};
use crate::helpers::{
    warm, sma_series, sma_kernel, partial_sma_series, sma_kernel_min0, wilder_series,
    wilders_ema_kernel, true_ranges, true_range, rolling_stds, rolling_std, rolling_mins,
    rolling_min, rolling_maxs, rolling_max,
};
use crate::trend::{typical_series, typical_prices, defined_mean};
use crate::formulas::{typical_price};

verus! {

/// Average true range: Wilder's average of the true range.
pub fn atr(high: &[Fp], low: &[Fp], close: &[Fp], n: usize) -> (result: Vec<Fp>)
    requires
        low@.len() == high@.len(),
        close@.len() == high@.len(),
    ensures
        result@ == wilder_series(true_ranges(high@, low@, close@), n as nat),
{
    let tr = true_range(high, low, close);
    wilders_ema_kernel(tr.as_slice(), n)
}

// ---------------------------------------------------------------------------
// Bollinger bands
// ---------------------------------------------------------------------------

/// A band that lies `k` times `width` above `middle`, where both are
/// defined.
pub open spec fn band_above(middle: Seq<Fp>, width: Seq<Fp>, k: Fp) -> Seq<Fp> {
    Seq::new(
        middle.len(),
        |i: int|
            if !middle[i].nan() && !width[i].nan() {
                middle[i].add_spec(k.mul_spec(width[i]))
            } else {
                Fp(NAN)
            },
    )
}

/// A band that lies `k` times `width` below `middle`, where both are
/// defined.
pub open spec fn band_below(middle: Seq<Fp>, width: Seq<Fp>, k: Fp) -> Seq<Fp> {
    Seq::new(
        middle.len(),
        |i: int|
            if !middle[i].nan() && !width[i].nan() {
                middle[i].sub_spec(k.mul_spec(width[i]))
            } else {
                Fp(NAN)
            },
    )
}

/// Returns the upper, middle and lower band: the moving average and the
/// bands `k` rolling standard deviations away from it.
pub fn bollinger_bands(close: &[Fp], n: usize, k: Fp) -> (r: (Vec<Fp>, Vec<Fp>, Vec<Fp>))
    ensures
        r.1@ == sma_series(close@, n as nat),
        r.0@ == band_above(r.1@, rolling_stds(close@, n as nat), k),
        r.2@ == band_below(r.1@, rolling_stds(close@, n as nat), k),
{
    let len = close.len();
    let middle = sma_kernel(close, n);
    let std = rolling_std(close, n);
    let mut upper: Vec<Fp> = Vec::new();
    let mut lower: Vec<Fp> = Vec::new();
    let mut i: usize = 0;
    while i < len
        invariant
            i <= len,
            middle@.len() == len,
            std@.len() == len,
            upper@.len() == i,
            lower@.len() == i,
            forall|j: int| 0 <= j < i ==> #[trigger] upper@[j] == band_above(middle@, std@, k)[j],
            forall|j: int| 0 <= j < i ==> #[trigger] lower@[j] == band_below(middle@, std@, k)[j],
        decreases len - i,
    {
        if !middle[i].is_nan() && !std[i].is_nan() {
            upper.push(middle[i].add(k.mul(std[i])));
            lower.push(middle[i].sub(k.mul(std[i])));
        } else {
            upper.push(Fp(NAN));
            lower.push(Fp(NAN));
        }
        i = i + 1;
    }
    assert(upper@ =~= band_above(middle@, std@, k));
    assert(lower@ =~= band_below(middle@, std@, k));
    (upper, middle, lower)
}

// ---------------------------------------------------------------------------
// Keltner channel
// ---------------------------------------------------------------------------

/// The price blend of the upper band: four highs less two lows plus the
/// close, over three.
pub open spec fn upper_blend(high: Seq<Fp>, low: Seq<Fp>, close: Seq<Fp>) -> Seq<Fp> {
    Seq::new(
        high.len(),
        |i: int|
            Fp(FOUR).mul_spec(high[i]).sub_spec(Fp(TWO).mul_spec(low[i])).add_spec(close[i])
                .div_spec(Fp(THREE)),
    )
}

/// The price blend of the lower band: four lows less two highs plus the
/// close, over three.
pub open spec fn lower_blend(high: Seq<Fp>, low: Seq<Fp>, close: Seq<Fp>) -> Seq<Fp> {
    Seq::new(
        high.len(),
        |i: int|
            Fp(NEG_TWO).mul_spec(high[i]).add_spec(Fp(FOUR).mul_spec(low[i])).add_spec(close[i])
                .div_spec(Fp(THREE)),
    )
}

/// Returns the upper, middle and lower band of the channel in its form of
/// moving averages: the middle band is the moving average of the typical
/// price, and the outer bands are moving averages of the two price blends
/// that need no whole window. The period of the true range and the
/// multiplier belong to the channel's other form, around an exponential
/// average, and are not read.
#[allow(unused_variables)]
pub fn keltner_channel(
    high: &[Fp],
    low: &[Fp],
    close: &[Fp],
    n_ema: usize,
    n_atr: usize,
    k: Fp,
) -> (r: (Vec<Fp>, Vec<Fp>, Vec<Fp>))
    requires
        low@.len() == high@.len(),
        close@.len() == high@.len(),
    ensures
        r.0@ == partial_sma_series(upper_blend(high@, low@, close@), n_ema as nat),
        r.1@ == sma_series(typical_series(high@, low@, close@), n_ema as nat),
        r.2@ == partial_sma_series(lower_blend(high@, low@, close@), n_ema as nat),
{
    let len = high.len();
    let typical_price = typical_prices(high, low, close);
    let middle = sma_kernel(typical_price.as_slice(), n_ema);
    let mut high_tp: Vec<Fp> = Vec::new();
    let mut low_tp: Vec<Fp> = Vec::new();
    let mut i: usize = 0;
    while i < len
        invariant
            i <= len,
            len == high@.len(),
            len == low@.len(),
            len == close@.len(),
            high_tp@.len() == i,
            low_tp@.len() == i,
            forall|j: int|
                0 <= j < i ==> #[trigger] high_tp@[j] == upper_blend(high@, low@, close@)[j],
            forall|j: int|
                0 <= j < i ==> #[trigger] low_tp@[j] == lower_blend(high@, low@, close@)[j],
        decreases len - i,
    {
        high_tp.push(Fp(FOUR).mul(high[i]).sub(Fp(TWO).mul(low[i])).add(close[i]).div(Fp(THREE)));
        low_tp.push(
            Fp(NEG_TWO).mul(high[i]).add(Fp(FOUR).mul(low[i])).add(close[i]).div(Fp(THREE)),
        );
        i = i + 1;
    }
    assert(high_tp@ =~= upper_blend(high@, low@, close@));
    assert(low_tp@ =~= lower_blend(high@, low@, close@));
    let upper = sma_kernel_min0(high_tp.as_slice(), n_ema);
    let lower = sma_kernel_min0(low_tp.as_slice(), n_ema);
    (upper, middle, lower)
}

// ---------------------------------------------------------------------------
// Donchian channel
// ---------------------------------------------------------------------------

/// Returns the upper, middle and lower band: the rolling maximum of the
/// highs, the rolling minimum of the lows, and their mean between them.
pub fn donchian_channel(high: &[Fp], low: &[Fp], n: usize) -> (r: (Vec<Fp>, Vec<Fp>, Vec<Fp>))
    requires
        low@.len() == high@.len(),
    ensures
        r.0@ == rolling_maxs(high@, n as nat),
        r.2@ == rolling_mins(low@, n as nat),
        r.1@ == defined_mean(r.0@, r.2@),
{
    let len = high.len();
    let upper = rolling_max(high, n);
    let lower = rolling_min(low, n);
    let mut middle: Vec<Fp> = Vec::new();
    let mut i: usize = 0;
    while i < len
        invariant
            i <= len,
            upper@.len() == len,
            lower@.len() == len,
            middle@.len() == i,
            forall|j: int| 0 <= j < i ==> #[trigger] middle@[j] == defined_mean(upper@, lower@)[j],
        decreases len - i,
    {
        if !upper[i].is_nan() && !lower[i].is_nan() {
            middle.push(upper[i].add(lower[i]).div(Fp(TWO)));
        } else {
            middle.push(Fp(NAN));
        }
        i = i + 1;
    }
    assert(middle@ =~= defined_mean(upper@, lower@));
    (upper, middle, lower)
}

// ---------------------------------------------------------------------------
// Ulcer index
// ---------------------------------------------------------------------------

/// The squared percentage by which each close lies below the highest close
/// of the window that ends with it, or of the series so far while that is
/// shorter; zero for the first close.
pub open spec fn rolling_drawdown_sq(close: Seq<Fp>, n: nat) -> Seq<Fp> {
    Seq::new(
        close.len(),
        |i: int|
            if i >= 1 {
                let start = if i >= n {
                    i - n + 1
                } else {
                    0
                };
                let peak = max_range(close, start, i + 1);
                let drawdown = close[i].sub_spec(peak).div_spec(peak).mul_spec(Fp(HUNDRED));
                drawdown.mul_spec(drawdown)
            } else {
                Fp(ZERO)
            },
    )
}

/// The ulcer index at `i`: the root of the mean squared drawdown of the
/// window.
pub open spec fn ulcer_at(close: Seq<Fp>, n: nat, i: int) -> Fp {
    if warm(n, close.len(), i) {
        sum_range(rolling_drawdown_sq(close, n), i + 1 - n, i + 1).div_spec(of_nat(n)).sqrt_spec()
    } else {
        Fp(NAN)
    }
}

pub open spec fn ulcer_series(close: Seq<Fp>, n: nat) -> Seq<Fp> {
    Seq::new(close.len(), |i: int| ulcer_at(close, n, i))
}

pub fn ulcer_index(close: &[Fp], n: usize) -> (ui: Vec<Fp>)
    ensures
        ui@ == ulcer_series(close@, n as nat),
{
    let len = close.len();
    if n == 0 || n > len {
        let early = undefined_vec(len);
        assert(early@ =~= ulcer_series(close@, n as nat));
        return early;
    }
    let mut pct_drawdown_sq: Vec<Fp> = Vec::new();
    let mut j: usize = 0;
    while j < len
        invariant
            j <= len,
            len == close@.len(),
            n >= 1,
            pct_drawdown_sq@.len() == j,
            forall|k: int|
                0 <= k < j ==> #[trigger] pct_drawdown_sq@[k] == rolling_drawdown_sq(
                    close@,
                    n as nat,
                )[k],
        decreases len - j,
    {
        if j >= 1 {
            let start_idx = if j >= n {
                j - n + 1
            } else {
                0
            };
            let max_close = max_of(close, start_idx, j + 1);
            let pct_dd = close[j].sub(max_close).div(max_close).mul(Fp(HUNDRED));
            pct_drawdown_sq.push(pct_dd.mul(pct_dd));
        } else {
            pct_drawdown_sq.push(Fp(ZERO));
        }
        j = j + 1;
    }
    assert(pct_drawdown_sq@ =~= rolling_drawdown_sq(close@, n as nat));
    let w = Fp::from_usize(n);
    let mut ui = undefined_vec(n - 1);
    let mut i: usize = n - 1;
    while i < len
        invariant
            1 <= n <= len,
            n - 1 <= i <= len,
            len == close@.len(),
            pct_drawdown_sq@ == rolling_drawdown_sq(close@, n as nat),
            w == of_nat(n as nat),
            ui@.len() == i,
            forall|k: int| 0 <= k < i ==> #[trigger] ui@[k] == ulcer_at(close@, n as nat, k),
        decreases len - i,
    {
        let mean_sq = sum_of(pct_drawdown_sq.as_slice(), i + 1 - n, i + 1).div(w);
        ui.push(mean_sq.sqrt());
        i = i + 1;
    }
    assert(ui@ =~= ulcer_series(close@, n as nat));
    ui
}

} // verus!
