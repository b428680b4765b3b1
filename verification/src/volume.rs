//! Bulk volume indicators, each over a whole series.

use vstd::prelude::*;
use crate::fp::{Fp, NAN, ZERO, ONE, THOUSAND, of_nat};
use crate::series::{sum_range, sum_of, dot_range, dot_of, undefined_vec};
use crate::helpers::{
    warm, sma_series, sma_kernel, ema_series, ema_kernel, rolling_sums, rolling_sum,
};
use crate::trend::{ema_alpha_of, typical_series, typical_prices, defined_ratio, defined_ratio_of};
use crate::formulas::{
    ease_of_movement, ease_of_movement_of, ema_alpha, relative_change, strength_index,
    strength_index_of, };

verus! {

// ---------------------------------------------------------------------------
// Money flow index
// ---------------------------------------------------------------------------

/// The positive money flow of every bar: the typical price times the volume
/// where the typical price rose, else zero.
pub open spec fn positive_flow(tp: Seq<Fp>, volume: Seq<Fp>) -> Seq<Fp> {
    Seq::new(
        tp.len(),
        |i: int|
            if i >= 1 && tp[i].gt_spec(tp[i - 1]) {
                tp[i].mul_spec(volume[i])
            } else {
                Fp(ZERO)
            },
    )
}

/// The negative money flow of every bar: the typical price times the volume
/// where the typical price fell, else zero.
pub open spec fn negative_flow(tp: Seq<Fp>, volume: Seq<Fp>) -> Seq<Fp> {
    Seq::new(
        tp.len(),
        |i: int|
            if i >= 1 && tp[i].lt_spec(tp[i - 1]) {
                tp[i].mul_spec(volume[i])
            } else {
                Fp(ZERO)
            },
    )
}

/// The money flow index at `i`: the strength index of the window's positive
/// flow against its negative flow.
pub open spec fn mfi_at(tp: Seq<Fp>, volume: Seq<Fp>, n: nat, i: int) -> Fp {
    if warm(n, tp.len(), i) {
        strength_index(
            sum_range(positive_flow(tp, volume), i + 1 - n, i + 1),
            sum_range(negative_flow(tp, volume), i + 1 - n, i + 1),
        )
    } else {
        Fp(NAN)
    }
}

pub open spec fn mfi_series(
    high: Seq<Fp>,
    low: Seq<Fp>,
    close: Seq<Fp>,
    volume: Seq<Fp>,
    n: nat,
) -> Seq<Fp> {
    Seq::new(high.len(), |i: int| mfi_at(typical_series(high, low, close), volume, n, i))
}

pub fn mfi(high: &[Fp], low: &[Fp], close: &[Fp], volume: &[Fp], n: usize) -> (result: Vec<Fp>)
    requires
        low@.len() == high@.len(),
        close@.len() == high@.len(),
        volume@.len() == high@.len(),
    ensures
        result@ == mfi_series(high@, low@, close@, volume@, n as nat),
{
    let len = high.len();
    let tp = typical_prices(high, low, close);
    if n == 0 || n > len {
        let early = undefined_vec(len);
        assert(early@ =~= mfi_series(high@, low@, close@, volume@, n as nat));
        return early;
    }
    let mut positive_mf: Vec<Fp> = Vec::new();
    let mut negative_mf: Vec<Fp> = Vec::new();
    let mut j: usize = 0;
    while j < len
        invariant
            j <= len,
            tp@.len() == len,
            volume@.len() == len,
            positive_mf@.len() == j,
            negative_mf@.len() == j,
            forall|k: int|
                0 <= k < j ==> #[trigger] positive_mf@[k] == positive_flow(tp@, volume@)[k],
            forall|k: int|
                0 <= k < j ==> #[trigger] negative_mf@[k] == negative_flow(tp@, volume@)[k],
        decreases len - j,
    {
        let mut positive = Fp(ZERO);
        let mut negative = Fp(ZERO);
        if j >= 1 {
            let rmf = tp[j].mul(volume[j]);
            if tp[j].gt(tp[j - 1]) {
                positive = rmf;
            } else if tp[j].lt(tp[j - 1]) {
                negative = rmf;
            }
        }
        positive_mf.push(positive);
        negative_mf.push(negative);
        j = j + 1;
    }
    assert(positive_mf@ =~= positive_flow(tp@, volume@));
    assert(negative_mf@ =~= negative_flow(tp@, volume@));
    let mut result = undefined_vec(n - 1);
    let mut i: usize = n - 1;
    while i < len
        invariant
            1 <= n <= len,
            n - 1 <= i <= len,
            tp@.len() == len,
            positive_mf@ == positive_flow(tp@, volume@),
            negative_mf@ == negative_flow(tp@, volume@),
            result@.len() == i,
            forall|k: int|
                0 <= k < i ==> #[trigger] result@[k] == mfi_at(tp@, volume@, n as nat, k),
        decreases len - i,
    {
        let pos_sum = sum_of(positive_mf.as_slice(), i + 1 - n, i + 1);
        let neg_sum = sum_of(negative_mf.as_slice(), i + 1 - n, i + 1);
        result.push(strength_index_of(pos_sum, neg_sum));
        i = i + 1;
    }
    assert(result@ =~= mfi_series(high@, low@, close@, volume@, n as nat));
    result
}

// ---------------------------------------------------------------------------
// Accumulation/distribution index, Chaikin money flow
// ---------------------------------------------------------------------------

/// The close location value of a bar: where the close lies between the low
/// and the high, from minus one to one; zero for a bar without height.
pub open spec fn close_location(high: Fp, low: Fp, close: Fp) -> Fp {
    let range = high.sub_spec(low);
    if range.ne_spec(Fp(ZERO)) {
        close.sub_spec(low).sub_spec(high.sub_spec(close)).div_spec(range)
    } else {
        Fp(ZERO)
    }
}

/// The money flow volume of every bar: its close location value times its
/// volume.
pub open spec fn money_flow_volume(
    high: Seq<Fp>,
    low: Seq<Fp>,
    close: Seq<Fp>,
    volume: Seq<Fp>,
) -> Seq<Fp> {
    Seq::new(high.len(), |i: int| close_location(high[i], low[i], close[i]).mul_spec(volume[i]))
}

fn money_flow_volumes(high: &[Fp], low: &[Fp], close: &[Fp], volume: &[Fp]) -> (mfv: Vec<Fp>)
    requires
        low@.len() == high@.len(),
        close@.len() == high@.len(),
        volume@.len() == high@.len(),
    ensures
        mfv@ == money_flow_volume(high@, low@, close@, volume@),
{
    let len = high.len();
    let mut mfv: Vec<Fp> = Vec::new();
    let mut i: usize = 0;
    while i < len
        invariant
            i <= len,
            len == high@.len(),
            len == low@.len(),
            len == close@.len(),
            len == volume@.len(),
            mfv@.len() == i,
            forall|k: int|
                0 <= k < i ==> #[trigger] mfv@[k] == money_flow_volume(
                    high@,
                    low@,
                    close@,
                    volume@,
                )[k],
        decreases len - i,
    {
        let range = high[i].sub(low[i]);
        let clv = if range.ne(Fp(ZERO)) {
            close[i].sub(low[i]).sub(high[i].sub(close[i])).div(range)
        } else {
            Fp(ZERO)
        };
        mfv.push(clv.mul(volume[i]));
        i = i + 1;
    }
    assert(mfv@ =~= money_flow_volume(high@, low@, close@, volume@));
    mfv
}

/// The running total of a series at `i`: the first sample, then each sample
/// added to the total before it.
pub open spec fn running_total(s: Seq<Fp>, i: int) -> Fp
    decreases i,
{
    if i <= 0 {
        s[0]
    } else {
        running_total(s, i - 1).add_spec(s[i])
    }
}

pub open spec fn running_totals(s: Seq<Fp>) -> Seq<Fp> {
    Seq::new(s.len(), |i: int| running_total(s, i))
}

fn running_totals_of(s: &[Fp]) -> (out: Vec<Fp>)
    ensures
        out@ == running_totals(s@),
{
    let len = s.len();
    let mut out: Vec<Fp> = Vec::new();
    if len == 0 {
        assert(out@ =~= running_totals(s@));
        return out;
    }
    let mut total = s[0];
    out.push(total);
    let mut i: usize = 1;
    while i < len
        invariant
            1 <= i <= len,
            len == s@.len(),
            total == running_total(s@, i - 1),
            out@.len() == i,
            forall|k: int| 0 <= k < i ==> #[trigger] out@[k] == running_total(s@, k),
        decreases len - i,
    {
        total = total.add(s[i]);
        out.push(total);
        i = i + 1;
    }
    assert(out@ =~= running_totals(s@));
    out
}

/// Accumulation/distribution index: the running total of the money flow
/// volume.
pub fn acc_dist_index(high: &[Fp], low: &[Fp], close: &[Fp], volume: &[Fp]) -> (ad: Vec<Fp>)
    requires
        low@.len() == high@.len(),
        close@.len() == high@.len(),
        volume@.len() == high@.len(),
    ensures
        ad@ == running_totals(money_flow_volume(high@, low@, close@, volume@)),
{
    let mfv = money_flow_volumes(high, low, close, volume);
    running_totals_of(mfv.as_slice())
}

/// Chaikin money flow: the rolling sum of the money flow volume over the
/// rolling sum of the volume.
pub fn chaikin_money_flow(high: &[Fp], low: &[Fp], close: &[Fp], volume: &[Fp], n: usize) -> (cmf:
    Vec<Fp>)
    requires
        low@.len() == high@.len(),
        close@.len() == high@.len(),
        volume@.len() == high@.len(),
    ensures
        cmf@ == defined_ratio(
            rolling_sums(money_flow_volume(high@, low@, close@, volume@), n as nat),
            rolling_sums(volume@, n as nat),
        ),
{
    let mfv = money_flow_volumes(high, low, close, volume);
    let sum_mfv = rolling_sum(mfv.as_slice(), n);
    let sum_volume = rolling_sum(volume, n);
    defined_ratio_of(sum_mfv.as_slice(), sum_volume.as_slice())
}

// ---------------------------------------------------------------------------
// On-balance volume
// ---------------------------------------------------------------------------

/// On-balance volume at `i`: the first bar's volume, then the volume taken
/// away where the close fell and added otherwise.
pub open spec fn obv_at(close: Seq<Fp>, volume: Seq<Fp>, i: int) -> Fp
    decreases i,
{
    if i <= 0 {
        volume[0]
    } else if close[i].lt_spec(close[i - 1]) {
        obv_at(close, volume, i - 1).sub_spec(volume[i])
    } else {
        obv_at(close, volume, i - 1).add_spec(volume[i])
    }
}

pub open spec fn obv_series(close: Seq<Fp>, volume: Seq<Fp>) -> Seq<Fp> {
    Seq::new(close.len(), |i: int| obv_at(close, volume, i))
}

pub fn obv(close: &[Fp], volume: &[Fp]) -> (result: Vec<Fp>)
    requires
        volume@.len() == close@.len(),
    ensures
        result@ == obv_series(close@, volume@),
{
    let len = close.len();
    let mut result: Vec<Fp> = Vec::new();
    if len == 0 {
        assert(result@ =~= obv_series(close@, volume@));
        return result;
    }
    let mut line = volume[0];
    result.push(line);
    let mut i: usize = 1;
    while i < len
        invariant
            1 <= i <= len,
            len == close@.len(),
            len == volume@.len(),
            line == obv_at(close@, volume@, i - 1),
            result@.len() == i,
            forall|k: int| 0 <= k < i ==> #[trigger] result@[k] == obv_at(close@, volume@, k),
        decreases len - i,
    {
        if close[i].lt(close[i - 1]) {
            line = line.sub(volume[i]);
        } else {
            line = line.add(volume[i]);
        }
        result.push(line);
        i = i + 1;
    }
    assert(result@ =~= obv_series(close@, volume@));
    result
}

// ---------------------------------------------------------------------------
// Force index
// ---------------------------------------------------------------------------

/// The raw force of every bar: the change of the close times the volume;
/// zero for the first bar.
pub open spec fn raw_force(close: Seq<Fp>, volume: Seq<Fp>) -> Seq<Fp> {
    Seq::new(
        close.len(),
        |i: int|
            if i >= 1 {
                close[i].sub_spec(close[i - 1]).mul_spec(volume[i])
            } else {
                Fp(ZERO)
            },
    )
}

/// Force index: the plain exponential average of the raw force.
pub fn force_index(close: &[Fp], volume: &[Fp], n: usize) -> (result: Vec<Fp>)
    requires
        volume@.len() == close@.len(),
    ensures
        result@ == ema_series(raw_force(close@, volume@), ema_alpha(n as nat), false),
{
    let len = close.len();
    let mut fi_raw: Vec<Fp> = Vec::new();
    let mut i: usize = 0;
    while i < len
        invariant
            i <= len,
            len == close@.len(),
            len == volume@.len(),
            fi_raw@.len() == i,
            forall|k: int| 0 <= k < i ==> #[trigger] fi_raw@[k] == raw_force(close@, volume@)[k],
        decreases len - i,
    {
        if i >= 1 {
            fi_raw.push(close[i].sub(close[i - 1]).mul(volume[i]));
        } else {
            fi_raw.push(Fp(ZERO));
        }
        i = i + 1;
    }
    assert(fi_raw@ =~= raw_force(close@, volume@));
    ema_kernel(fi_raw.as_slice(), ema_alpha_of(n), false)
}

// ---------------------------------------------------------------------------
// Ease of movement
// ---------------------------------------------------------------------------

/// The ease of movement of every bar after the first, left raw; undefined
/// for the first bar and for bars without volume.
pub open spec fn eom_series(high: Seq<Fp>, low: Seq<Fp>, volume: Seq<Fp>) -> Seq<Fp> {
    Seq::new(
        high.len(),
        |i: int|
            if i >= 1 {
                ease_of_movement(high[i - 1], low[i - 1], high[i], low[i], volume[i])
            } else {
                Fp(NAN)
            },
    )
}

/// Ease of movement. The period is kept for callers and is not read: the
/// values are not smoothed.
#[allow(unused_variables)]
pub fn eom(high: &[Fp], low: &[Fp], volume: &[Fp], n: usize) -> (result: Vec<Fp>)
    requires
        low@.len() == high@.len(),
        volume@.len() == high@.len(),
    ensures
        result@ == eom_series(high@, low@, volume@),
{
    let len = high.len();
    let mut result: Vec<Fp> = Vec::new();
    let mut i: usize = 0;
    while i < len
        invariant
            i <= len,
            len == high@.len(),
            len == low@.len(),
            len == volume@.len(),
            result@.len() == i,
            forall|k: int|
                0 <= k < i ==> #[trigger] result@[k] == eom_series(high@, low@, volume@)[k],
        decreases len - i,
    {
        if i >= 1 {
            result.push(ease_of_movement_of(high[i - 1], low[i - 1], high[i], low[i], volume[i]));
        } else {
            result.push(Fp(NAN));
        }
        i = i + 1;
    }
    assert(result@ =~= eom_series(high@, low@, volume@));
    result
}

// ---------------------------------------------------------------------------
// Volume price trend, negative volume index
// ---------------------------------------------------------------------------

/// The relative change of every close from the one before; zero for the
/// first.
pub open spec fn relative_changes(close: Seq<Fp>) -> Seq<Fp> {
    Seq::new(
        close.len(),
        |i: int|
            if i >= 1 {
                relative_change(close[i - 1], close[i])
            } else {
                Fp(ZERO)
            },
    )
}

/// The volume of every bar times the relative change of its close.
pub open spec fn volume_changes(close: Seq<Fp>, volume: Seq<Fp>) -> Seq<Fp> {
    Seq::new(close.len(), |i: int| volume[i].mul_spec(relative_changes(close)[i]))
}

/// Volume price trend: the running total of the volume times the relative
/// change of the close.
pub fn vpt(close: &[Fp], volume: &[Fp]) -> (result: Vec<Fp>)
    requires
        volume@.len() == close@.len(),
    ensures
        result@ == running_totals(volume_changes(close@, volume@)),
{
    let len = close.len();
    let mut vpt_change: Vec<Fp> = Vec::new();
    let mut i: usize = 0;
    while i < len
        invariant
            i <= len,
            len == close@.len(),
            len == volume@.len(),
            vpt_change@.len() == i,
            forall|k: int|
                0 <= k < i ==> #[trigger] vpt_change@[k] == volume_changes(close@, volume@)[k],
        decreases len - i,
    {
        let pct_change = if i >= 1 {
            close[i].sub(close[i - 1]).div(close[i - 1])
        } else {
            Fp(ZERO)
        };
        vpt_change.push(volume[i].mul(pct_change));
        i = i + 1;
    }
    assert(vpt_change@ =~= volume_changes(close@, volume@));
    running_totals_of(vpt_change.as_slice())
}

/// The negative volume index at `i`: a thousand at the start; on each later
/// bar whose volume fell, the index before scaled by one plus the relative
/// change of the close.
pub open spec fn nvi_at(close: Seq<Fp>, volume: Seq<Fp>, i: int) -> Fp
    decreases i,
{
    if i <= 0 {
        Fp(THOUSAND)
    } else if volume[i].lt_spec(volume[i - 1]) {
        nvi_at(close, volume, i - 1).mul_spec(
            Fp(ONE).add_spec(relative_change(close[i - 1], close[i])),
        )
    } else {
        nvi_at(close, volume, i - 1)
    }
}

pub open spec fn nvi_series(close: Seq<Fp>, volume: Seq<Fp>) -> Seq<Fp> {
    Seq::new(close.len(), |i: int| nvi_at(close, volume, i))
}

pub fn nvi(close: &[Fp], volume: &[Fp]) -> (result: Vec<Fp>)
    requires
        volume@.len() == close@.len(),
    ensures
        result@ == nvi_series(close@, volume@),
{
    let len = close.len();
    let mut result: Vec<Fp> = Vec::new();
    if len == 0 {
        assert(result@ =~= nvi_series(close@, volume@));
        return result;
    }
    let mut line = Fp(THOUSAND);
    result.push(line);
    let mut i: usize = 1;
    while i < len
        invariant
            1 <= i <= len,
            len == close@.len(),
            len == volume@.len(),
            line == nvi_at(close@, volume@, i - 1),
            result@.len() == i,
            forall|k: int| 0 <= k < i ==> #[trigger] result@[k] == nvi_at(close@, volume@, k),
        decreases len - i,
    {
        if volume[i].lt(volume[i - 1]) {
            let pct_change = close[i].sub(close[i - 1]).div(close[i - 1]);
            line = line.mul(Fp(ONE).add(pct_change));
        }
        result.push(line);
        i = i + 1;
    }
    assert(result@ =~= nvi_series(close@, volume@));
    result
}

// ---------------------------------------------------------------------------
// Volume weighted average price
// ---------------------------------------------------------------------------

/// The volume weighted average price at `i`: the window's typical prices
/// weighted by volume, over the window's volume; `fallback` where that
/// volume is zero.
pub open spec fn vwap_at(tp: Seq<Fp>, volume: Seq<Fp>, n: nat, i: int, fallback: Fp) -> Fp {
    if warm(n, tp.len(), i) {
        let total = sum_range(volume, i + 1 - n, i + 1);
        if total.ne_spec(Fp(ZERO)) {
            dot_range(tp, volume, i + 1 - n, i + 1).div_spec(total)
        } else {
            fallback
        }
    } else {
        Fp(NAN)
    }
}

/// The volume weighted average price of a series of bars, undefined where
/// the window's volume is zero.
pub open spec fn vwap_series(
    high: Seq<Fp>,
    low: Seq<Fp>,
    close: Seq<Fp>,
    volume: Seq<Fp>,
    n: nat,
) -> Seq<Fp> {
    Seq::new(
        high.len(),
        |i: int| vwap_at(typical_series(high, low, close), volume, n, i, Fp(NAN)),
    )
}

/// The volume weighted average price of a series of bars, with the plain
/// mean of the window's typical prices where its volume is zero.
pub open spec fn vwap_or_mean_series(
    high: Seq<Fp>,
    low: Seq<Fp>,
    close: Seq<Fp>,
    volume: Seq<Fp>,
    n: nat,
) -> Seq<Fp> {
    let tp = typical_series(high, low, close);
    Seq::new(
        high.len(),
        |i: int| vwap_at(tp, volume, n, i, sum_range(tp, i + 1 - n, i + 1).div_spec(of_nat(n))),
    )
}

pub fn vwap(high: &[Fp], low: &[Fp], close: &[Fp], volume: &[Fp], n: usize) -> (result: Vec<Fp>)
    requires
        low@.len() == high@.len(),
        close@.len() == high@.len(),
        volume@.len() == high@.len(),
    ensures
        result@ == vwap_series(high@, low@, close@, volume@, n as nat),
{
    let len = high.len();
    let tp = typical_prices(high, low, close);
    if n == 0 || n > len {
        let early = undefined_vec(len);
        assert(early@ =~= vwap_series(high@, low@, close@, volume@, n as nat));
        return early;
    }
    let mut result = undefined_vec(n - 1);
    let mut i: usize = n - 1;
    while i < len
        invariant
            1 <= n <= len,
            n - 1 <= i <= len,
            tp@.len() == len,
            volume@.len() == len,
            result@.len() == i,
            forall|k: int|
                0 <= k < i ==> #[trigger] result@[k] == vwap_at(
                    tp@,
                    volume@,
                    n as nat,
                    k,
                    Fp(NAN),
                ),
        decreases len - i,
    {
        let sum_tpv = dot_of(tp.as_slice(), volume, i + 1 - n, i + 1);
        let sum_vol = sum_of(volume, i + 1 - n, i + 1);
        if sum_vol.ne(Fp(ZERO)) {
            result.push(sum_tpv.div(sum_vol));
        } else {
            result.push(Fp(NAN));
        }
        i = i + 1;
    }
    assert(result@ =~= vwap_series(high@, low@, close@, volume@, n as nat));
    result
}

/// Volume weighted exponential average: the adjusted exponential average of
/// the volume weighted average price.
pub fn vwema(
    high: &[Fp],
    low: &[Fp],
    close: &[Fp],
    volume: &[Fp],
    n_vwma: usize,
    n_ema: usize,
) -> (result: Vec<Fp>)
    requires
        low@.len() == high@.len(),
        close@.len() == high@.len(),
        volume@.len() == high@.len(),
    ensures
        result@ == ema_series(
            vwap_or_mean_series(high@, low@, close@, volume@, n_vwma as nat),
            ema_alpha(n_ema as nat),
            true,
        ),
{
    let len = high.len();
    let tp = typical_prices(high, low, close);
    let ghost target = vwap_or_mean_series(high@, low@, close@, volume@, n_vwma as nat);
    let mut vwap: Vec<Fp> = Vec::new();
    let mut i: usize = 0;
    while i < len
        invariant
            i <= len,
            len == high@.len(),
            tp@ == typical_series(high@, low@, close@),
            tp@.len() == len,
            volume@.len() == len,
            target == vwap_or_mean_series(high@, low@, close@, volume@, n_vwma as nat),
            vwap@.len() == i,
            forall|k: int| 0 <= k < i ==> #[trigger] vwap@[k] == target[k],
        decreases len - i,
    {
        if n_vwma >= 1 && i >= n_vwma - 1 {
            let start_idx = i + 1 - n_vwma;
            let sum_tp_vol = dot_of(tp.as_slice(), volume, start_idx, i + 1);
            let sum_vol = sum_of(volume, start_idx, i + 1);
            if sum_vol.ne(Fp(ZERO)) {
                vwap.push(sum_tp_vol.div(sum_vol));
            } else {
                vwap.push(sum_of(tp.as_slice(), start_idx, i + 1).div(Fp::from_usize(n_vwma)));
            }
        } else {
            vwap.push(Fp(NAN));
        }
        i = i + 1;
    }
    assert(vwap@ =~= target);
    ema_kernel(vwap.as_slice(), ema_alpha_of(n_ema), true)
}

/// Volume ratio: the volume over its moving average, where that is defined
/// and not zero.
pub fn volume_ratio(volume: &[Fp], window: usize) -> (result: Vec<Fp>)
    ensures
        result@ == defined_ratio(volume@, sma_series(volume@, window as nat)),
{
    let sma = sma_kernel(volume, window);
    defined_ratio_of(volume, sma.as_slice())
}

} // verus!
