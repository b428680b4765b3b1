//! Kernels shared by the bulk indicators: moving averages, rolling
//! aggregates and the true range, each over a whole series.

use vstd::prelude::*;
use crate::fp::{Fp, NAN, ZERO, ONE, of_nat};
use crate::series::{
    sum_range, sum_of, max_range, max_of, min_range, min_of, sq_dev_range, sq_dev_of, any_nan,
    has_nan, undefined_vec,
};
use crate::formulas::{smooth, smoothed, true_range_after, true_range_step, wilder_alpha};

verus! {

/// Whether a window of that length fits a series of `len` samples.
pub open spec fn fits(window: nat, len: nat) -> bool {
    1 <= window <= len
}

/// Whether position `i` of a series closes a whole window.
pub open spec fn warm(window: nat, len: nat, i: int) -> bool {
    fits(window, len) && window - 1 <= i < len
}

// ---------------------------------------------------------------------------
// Simple moving average
// ---------------------------------------------------------------------------

/// The running sum of the window that ends at `i`: the first window is added
/// up from zero; each later one adds the sample that enters, then takes away
/// the one that leaves.
pub open spec fn running_sum(data: Seq<Fp>, window: nat, i: int) -> Fp
    decreases i + 1,
{
    if i < window {
        sum_range(data, 0, i + 1)
    } else {
        running_sum(data, window, i - 1).add_spec(data[i]).sub_spec(data[i - window])
    }
}

/// The simple moving average at `i`: undefined before the first whole
/// window, and everywhere if no window fits.
pub open spec fn sma_at(data: Seq<Fp>, window: nat, i: int) -> Fp {
    if warm(window, data.len(), i) {
        running_sum(data, window, i).div_spec(of_nat(window))
    } else {
        Fp(NAN)
    }
}

/// The simple moving average of a series.
pub open spec fn sma_series(data: Seq<Fp>, window: nat) -> Seq<Fp> {
    Seq::new(data.len(), |i: int| sma_at(data, window, i))
}

pub fn sma_kernel(data: &[Fp], window: usize) -> (result: Vec<Fp>)
    ensures
        result@ == sma_series(data@, window as nat),
{
    let n = data.len();
    if window > n || window == 0 {
        let early = undefined_vec(n);
        assert(early@ =~= sma_series(data@, window as nat));
        return early;
    }
    let w = Fp::from_usize(window);
    let mut result = undefined_vec(window - 1);
    let mut sum = sum_of(data, 0, window);
    result.push(sum.div(w));
    let mut i: usize = window;
    while i < n
        invariant
            1 <= window <= i <= n,
            n == data@.len(),
            w == of_nat(window as nat),
            result@.len() == i,
            sum == running_sum(data@, window as nat, i - 1),
            forall|k: int| 0 <= k < i ==> #[trigger] result@[k] == sma_at(data@, window as nat, k),
        decreases n - i,
    {
        sum = sum.add(data[i]).sub(data[i - window]);
        result.push(sum.div(w));
        i = i + 1;
    }
    assert(result@ =~= sma_series(data@, window as nat));
    result
}

/// The mean of the window that ends at `i`, defined only where the window is
/// whole and holds no NaN.
pub open spec fn nan_aware_sma_at(data: Seq<Fp>, window: nat, i: int) -> Fp {
    if warm(window, data.len(), i) && !any_nan(data, i + 1 - window, i + 1) {
        sum_range(data, i + 1 - window, i + 1).div_spec(of_nat(window))
    } else {
        Fp(NAN)
    }
}

/// The moving average of a series that is defined only over windows without NaN.
pub open spec fn nan_aware_sma_series(data: Seq<Fp>, window: nat) -> Seq<Fp> {
    Seq::new(data.len(), |i: int| nan_aware_sma_at(data, window, i))
}

pub fn sma_kernel_nan_aware(data: &[Fp], window: usize) -> (result: Vec<Fp>)
    ensures
        result@ == nan_aware_sma_series(data@, window as nat),
{
    let n = data.len();
    if window > n || window == 0 {
        let early = undefined_vec(n);
        assert(early@ =~= nan_aware_sma_series(data@, window as nat));
        return early;
    }
    let w = Fp::from_usize(window);
    let mut result = undefined_vec(window - 1);
    let mut i: usize = window - 1;
    while i < n
        invariant
            1 <= window <= n,
            window - 1 <= i <= n,
            n == data@.len(),
            w == of_nat(window as nat),
            result@.len() == i,
            forall|k: int|
                0 <= k < i ==> #[trigger] result@[k] == nan_aware_sma_at(data@, window as nat, k),
        decreases n - i,
    {
        let start = i + 1 - window;
        if has_nan(data, start, i + 1) {
            result.push(Fp(NAN));
        } else {
            result.push(sum_of(data, start, i + 1).div(w));
        }
        i = i + 1;
    }
    assert(result@ =~= nan_aware_sma_series(data@, window as nat));
    result
}

/// The mean at `i` of as much of the window as the series holds so far: the
/// samples from the window's start, or from the start of the series, up to
/// `i`, over their number.
pub open spec fn partial_sma_at(data: Seq<Fp>, window: nat, i: int) -> Fp {
    if window == 0 {
        Fp(NAN)
    } else if i + 1 < window {
        sum_range(data, 0, i + 1).div_spec(of_nat((i + 1) as nat))
    } else {
        sum_range(data, i + 1 - window, i + 1).div_spec(of_nat(window))
    }
}

/// The moving average of a series that needs no whole window.
pub open spec fn partial_sma_series(data: Seq<Fp>, window: nat) -> Seq<Fp> {
    Seq::new(data.len(), |i: int| partial_sma_at(data, window, i))
}

/// Simple moving average with no minimum number of samples: before the
/// first whole window it averages what there is.
pub fn sma_kernel_min0(data: &[Fp], window: usize) -> (result: Vec<Fp>)
    ensures
        result@ == partial_sma_series(data@, window as nat),
{
    let n = data.len();
    if window == 0 {
        let early = undefined_vec(n);
        assert(early@ =~= partial_sma_series(data@, window as nat));
        return early;
    }
    let mut result: Vec<Fp> = Vec::new();
    let mut i: usize = 0;
    while i < n
        invariant
            i <= n,
            n == data@.len(),
            window >= 1,
            result@.len() == i,
            forall|k: int|
                0 <= k < i ==> #[trigger] result@[k] == partial_sma_at(data@, window as nat, k),
        decreases n - i,
    {
        if i + 1 < window {
            result.push(sum_of(data, 0, i + 1).div(Fp::from_usize(i + 1)));
        } else {
            result.push(sum_of(data, i + 1 - window, i + 1).div(Fp::from_usize(window)));
        }
        i = i + 1;
    }
    assert(result@ =~= partial_sma_series(data@, window as nat));
    result
}

// ---------------------------------------------------------------------------
// Exponential moving average
// ---------------------------------------------------------------------------

/// The exponential average at `i` without adjustment: the first sample
/// seeds it, each later sample is smoothed into the previous value.
pub open spec fn ema_plain_at(data: Seq<Fp>, alpha: Fp, i: int) -> Fp
    decreases i,
{
    if i <= 0 {
        data[0]
    } else {
        smooth(alpha, data[i], ema_plain_at(data, alpha, i - 1))
    }
}

/// The decayed sum of the samples up to `i`: each step scales the sum by
/// `1 - alpha` and adds the sample.
pub open spec fn decayed_sum(data: Seq<Fp>, alpha: Fp, i: int) -> Fp
    decreases i,
{
    if i <= 0 {
        data[0]
    } else {
        decayed_sum(data, alpha, i - 1).mul_spec(Fp(ONE).sub_spec(alpha)).add_spec(data[i])
    }
}

/// The decayed sum of the weights up to `i`.
pub open spec fn decayed_weight(alpha: Fp, i: int) -> Fp
    decreases i,
{
    if i <= 0 {
        Fp(ONE)
    } else {
        decayed_weight(alpha, i - 1).mul_spec(Fp(ONE).sub_spec(alpha)).add_spec(Fp(ONE))
    }
}

/// The exponential average at `i` with adjusted weights: the decayed sum
/// of the samples over the decayed sum of their weights.
pub open spec fn ema_adjusted_at(data: Seq<Fp>, alpha: Fp, i: int) -> Fp {
    if i <= 0 {
        data[0]
    } else {
        decayed_sum(data, alpha, i).div_spec(decayed_weight(alpha, i))
    }
}

pub open spec fn ema_at(data: Seq<Fp>, alpha: Fp, adjusted: bool, i: int) -> Fp {
    if adjusted {
        ema_adjusted_at(data, alpha, i)
    } else {
        ema_plain_at(data, alpha, i)
    }
}

/// The exponential moving average of a series, plain or with adjusted weights.
pub open spec fn ema_series(data: Seq<Fp>, alpha: Fp, adjusted: bool) -> Seq<Fp> {
    Seq::new(data.len(), |i: int| ema_at(data, alpha, adjusted, i))
}

pub fn ema_kernel(data: &[Fp], alpha: Fp, adjusted: bool) -> (result: Vec<Fp>)
    ensures
        result@ == ema_series(data@, alpha, adjusted),
{
    let n = data.len();
    let mut result: Vec<Fp> = Vec::new();
    if n == 0 {
        let early = result;
        assert(early@ =~= ema_series(data@, alpha, adjusted));
        return early;
    }
    result.push(data[0]);
    let mut i: usize = 1;
    if adjusted {
        let mut weighted_sum = data[0];
        let mut divisor = Fp(ONE);
        let one_minus_alpha = Fp(ONE).sub(alpha);
        while i < n
            invariant
                1 <= i <= n,
                n == data@.len(),
                adjusted,
                one_minus_alpha == Fp(ONE).sub_spec(alpha),
                result@.len() == i,
                weighted_sum == decayed_sum(data@, alpha, i - 1),
                divisor == decayed_weight(alpha, i - 1),
                forall|k: int|
                    0 <= k < i ==> #[trigger] result@[k] == ema_at(data@, alpha, adjusted, k),
            decreases n - i,
        {
            weighted_sum = weighted_sum.mul(one_minus_alpha).add(data[i]);
            divisor = divisor.mul(one_minus_alpha).add(Fp(ONE));
            result.push(weighted_sum.div(divisor));
            i = i + 1;
        }
    } else {
        while i < n
            invariant
                1 <= i <= n,
                n == data@.len(),
                !adjusted,
                result@.len() == i,
                forall|k: int|
                    0 <= k < i ==> #[trigger] result@[k] == ema_at(data@, alpha, adjusted, k),
            decreases n - i,
        {
            let prev = result[i - 1];
            assert(prev == ema_plain_at(data@, alpha, i - 1));
            result.push(smoothed(alpha, data[i], prev));
            i = i + 1;
        }
    }
    assert(result@ =~= ema_series(data@, alpha, adjusted));
    result
}

// ---------------------------------------------------------------------------
// Wilder's smoothing
// ---------------------------------------------------------------------------

/// The number of samples among the first `n` that are not NaN.
pub open spec fn valid_count(data: Seq<Fp>, n: int) -> nat
    decreases n,
{
    if n <= 0 {
        0
    } else if data[n - 1].nan() {
        valid_count(data, n - 1)
    } else {
        valid_count(data, n - 1) + 1
    }
}

/// The samples among the first `n` that are not NaN, added up from zero.
pub open spec fn valid_sum(data: Seq<Fp>, n: int) -> Fp
    decreases n,
{
    if n <= 0 {
        Fp(ZERO)
    } else if data[n - 1].nan() {
        valid_sum(data, n - 1)
    } else {
        valid_sum(data, n - 1).add_spec(data[n - 1])
    }
}

/// Wilder's average at `i`. It is undefined until `window` samples that are
/// not NaN have been seen; the one that completes them gives their mean as
/// the seed. After the seed a NaN sample carries the average forward, and
/// any other sample is smoothed into it with the constant one over `window`.
pub open spec fn wilder_at(data: Seq<Fp>, window: nat, i: int) -> Fp
    decreases i + 1,
{
    if window == 0 || i < 0 || valid_count(data, i + 1) < window {
        Fp(NAN)
    } else if data[i].nan() {
        wilder_at(data, window, i - 1)
    } else if valid_count(data, i + 1) == window {
        valid_sum(data, i + 1).div_spec(of_nat(window))
    } else {
        let alpha = wilder_alpha(window);
        data[i].mul_spec(alpha).add_spec(
            wilder_at(data, window, i - 1).mul_spec(Fp(ONE).sub_spec(alpha)),
        )
    }
}

/// Wilder's average of a series.
pub open spec fn wilder_series(data: Seq<Fp>, window: nat) -> Seq<Fp> {
    Seq::new(data.len(), |i: int| wilder_at(data, window, i))
}

pub fn wilders_ema_kernel(data: &[Fp], window: usize) -> (result: Vec<Fp>)
    ensures
        result@ == wilder_series(data@, window as nat),
{
    let n = data.len();
    if window == 0 || n == 0 {
        let early = undefined_vec(n);
        assert(early@ =~= wilder_series(data@, window as nat));
        return early;
    }
    let w = Fp::from_usize(window);
    let alpha = Fp(ONE).div(w);
    let mut result: Vec<Fp> = Vec::new();
    let mut non_nan_count: usize = 0;
    let mut sum = Fp(ZERO);
    let mut wema = Fp(NAN);
    let mut i: usize = 0;
    while i < n
        invariant
            i <= n,
            n == data@.len(),
            window >= 1,
            w == of_nat(window as nat),
            alpha == wilder_alpha(window as nat),
            result@.len() == i,
            non_nan_count == valid_count(data@, i as int),
            non_nan_count <= i,
            non_nan_count < window ==> sum == valid_sum(data@, i as int),
            wema == wilder_at(data@, window as nat, i - 1),
            forall|k: int|
                0 <= k < i ==> #[trigger] result@[k] == wilder_at(data@, window as nat, k),
        decreases n - i,
    {
        let x = data[i];
        if !x.is_nan() {
            if non_nan_count < window {
                sum = sum.add(x);
                non_nan_count = non_nan_count + 1;
                if non_nan_count == window {
                    wema = sum.div(w);
                }
            } else {
                wema = x.mul(alpha).add(wema.mul(Fp(ONE).sub(alpha)));
                if non_nan_count < usize::MAX {
                    non_nan_count = non_nan_count + 1;
                }
            }
        }
        result.push(wema);
        i = i + 1;
    }
    assert(result@ =~= wilder_series(data@, window as nat));
    result
}

// ---------------------------------------------------------------------------
// True range
// ---------------------------------------------------------------------------

/// The true range of bar `i`: the first bar's height, and for each later
/// bar the largest of its height and the distances from the previous close
/// to its high and its low.
pub open spec fn true_range_at(high: Seq<Fp>, low: Seq<Fp>, close: Seq<Fp>, i: int) -> Fp {
    if i <= 0 {
        high[0].sub_spec(low[0])
    } else {
        true_range_after(high[i], low[i], close[i - 1])
    }
}

/// The true range of every bar.
pub open spec fn true_ranges(high: Seq<Fp>, low: Seq<Fp>, close: Seq<Fp>) -> Seq<Fp> {
    Seq::new(high.len(), |i: int| true_range_at(high, low, close, i))
}

pub fn true_range(high: &[Fp], low: &[Fp], close: &[Fp]) -> (tr: Vec<Fp>)
    requires
        low@.len() == high@.len(),
        close@.len() == high@.len(),
    ensures
        tr@ == true_ranges(high@, low@, close@),
{
    let n = high.len();
    let mut tr: Vec<Fp> = Vec::new();
    if n == 0 {
        let early = tr;
        assert(early@ =~= true_ranges(high@, low@, close@));
        return early;
    }
    tr.push(high[0].sub(low[0]));
    let mut i: usize = 1;
    while i < n
        invariant
            1 <= i <= n,
            n == high@.len(),
            low@.len() == n,
            close@.len() == n,
            tr@.len() == i,
            forall|k: int|
                0 <= k < i ==> #[trigger] tr@[k] == true_range_at(high@, low@, close@, k),
        decreases n - i,
    {
        tr.push(true_range_step(high[i], low[i], close[i - 1]));
        i = i + 1;
    }
    assert(tr@ =~= true_ranges(high@, low@, close@));
    tr
}

// ---------------------------------------------------------------------------
// Rolling aggregates
// ---------------------------------------------------------------------------

/// The population standard deviation of the window that ends at `i`.
pub open spec fn rolling_std_at(data: Seq<Fp>, window: nat, i: int) -> Fp {
    if warm(window, data.len(), i) {
        let lo = i + 1 - window;
        let mean = sum_range(data, lo, i + 1).div_spec(of_nat(window));
        sq_dev_range(data, lo, i + 1, mean).div_spec(of_nat(window)).sqrt_spec()
    } else {
        Fp(NAN)
    }
}

/// The rolling population standard deviation of a series.
pub open spec fn rolling_stds(data: Seq<Fp>, window: nat) -> Seq<Fp> {
    Seq::new(data.len(), |i: int| rolling_std_at(data, window, i))
}

pub fn rolling_std(data: &[Fp], window: usize) -> (result: Vec<Fp>)
    ensures
        result@ == rolling_stds(data@, window as nat),
{
    let n = data.len();
    if window > n || window == 0 {
        let early = undefined_vec(n);
        assert(early@ =~= rolling_stds(data@, window as nat));
        return early;
    }
    let w = Fp::from_usize(window);
    let mut result = undefined_vec(window - 1);
    let mut i: usize = window - 1;
    while i < n
        invariant
            1 <= window <= n,
            window - 1 <= i <= n,
            n == data@.len(),
            w == of_nat(window as nat),
            result@.len() == i,
            forall|k: int|
                0 <= k < i ==> #[trigger] result@[k] == rolling_std_at(data@, window as nat, k),
        decreases n - i,
    {
        let lo = i + 1 - window;
        let mean = sum_of(data, lo, i + 1).div(w);
        let variance = sq_dev_of(data, lo, i + 1, mean).div(w);
        result.push(variance.sqrt());
        i = i + 1;
    }
    assert(result@ =~= rolling_stds(data@, window as nat));
    result
}

/// The smallest sample of the window that ends at `i`.
pub open spec fn rolling_min_at(data: Seq<Fp>, window: nat, i: int) -> Fp {
    if warm(window, data.len(), i) {
        min_range(data, i + 1 - window, i + 1)
    } else {
        Fp(NAN)
    }
}

/// The rolling minimum of a series.
pub open spec fn rolling_mins(data: Seq<Fp>, window: nat) -> Seq<Fp> {
    Seq::new(data.len(), |i: int| rolling_min_at(data, window, i))
}

pub fn rolling_min(data: &[Fp], window: usize) -> (result: Vec<Fp>)
    ensures
        result@ == rolling_mins(data@, window as nat),
{
    let n = data.len();
    if window > n || window == 0 {
        let early = undefined_vec(n);
        assert(early@ =~= rolling_mins(data@, window as nat));
        return early;
    }
    let mut result = undefined_vec(window - 1);
    let mut i: usize = window - 1;
    while i < n
        invariant
            1 <= window <= n,
            window - 1 <= i <= n,
            n == data@.len(),
            result@.len() == i,
            forall|k: int|
                0 <= k < i ==> #[trigger] result@[k] == rolling_min_at(data@, window as nat, k),
        decreases n - i,
    {
        result.push(min_of(data, i + 1 - window, i + 1));
        i = i + 1;
    }
    assert(result@ =~= rolling_mins(data@, window as nat));
    result
}

/// The largest sample of the window that ends at `i`.
pub open spec fn rolling_max_at(data: Seq<Fp>, window: nat, i: int) -> Fp {
    if warm(window, data.len(), i) {
        max_range(data, i + 1 - window, i + 1)
    } else {
        Fp(NAN)
    }
}

/// The rolling maximum of a series.
pub open spec fn rolling_maxs(data: Seq<Fp>, window: nat) -> Seq<Fp> {
    Seq::new(data.len(), |i: int| rolling_max_at(data, window, i))
}

pub fn rolling_max(data: &[Fp], window: usize) -> (result: Vec<Fp>)
    ensures
        result@ == rolling_maxs(data@, window as nat),
{
    let n = data.len();
    if window > n || window == 0 {
        let early = undefined_vec(n);
        assert(early@ =~= rolling_maxs(data@, window as nat));
        return early;
    }
    let mut result = undefined_vec(window - 1);
    let mut i: usize = window - 1;
    while i < n
        invariant
            1 <= window <= n,
            window - 1 <= i <= n,
            n == data@.len(),
            result@.len() == i,
            forall|k: int|
                0 <= k < i ==> #[trigger] result@[k] == rolling_max_at(data@, window as nat, k),
        decreases n - i,
    {
        result.push(max_of(data, i + 1 - window, i + 1));
        i = i + 1;
    }
    assert(result@ =~= rolling_maxs(data@, window as nat));
    result
}

/// The rolling mean is the simple moving average.
pub fn rolling_mean(data: &[Fp], window: usize) -> (result: Vec<Fp>)
    ensures
        result@ == sma_series(data@, window as nat),
{
    sma_kernel(data, window)
}

/// The running sum of the window that ends at `i`, with NaN samples left
/// out both where they would enter and where they would leave.
pub open spec fn skipping_sum(data: Seq<Fp>, window: nat, i: int) -> Fp
    decreases i + 1,
{
    if i < window {
        valid_sum(data, i + 1)
    } else {
        let before = skipping_sum(data, window, i - 1);
        let left = if data[i - window].nan() {
            before
        } else {
            before.sub_spec(data[i - window])
        };
        if data[i].nan() {
            left
        } else {
            left.add_spec(data[i])
        }
    }
}

/// The rolling sum at `i`: undefined before the first whole window.
pub open spec fn rolling_sum_at(data: Seq<Fp>, window: nat, i: int) -> Fp {
    if warm(window, data.len(), i) {
        skipping_sum(data, window, i)
    } else {
        Fp(NAN)
    }
}

/// The rolling sum of a series, with NaN samples left out.
pub open spec fn rolling_sums(data: Seq<Fp>, window: nat) -> Seq<Fp> {
    Seq::new(data.len(), |i: int| rolling_sum_at(data, window, i))
}

pub fn rolling_sum(data: &[Fp], window: usize) -> (result: Vec<Fp>)
    ensures
        result@ == rolling_sums(data@, window as nat),
{
    let n = data.len();
    if window > n || window == 0 {
        let early = undefined_vec(n);
        assert(early@ =~= rolling_sums(data@, window as nat));
        return early;
    }
    let mut sum = Fp(ZERO);
    let mut j: usize = 0;
    while j < window
        invariant
            j <= window <= n,
            n == data@.len(),
            sum == valid_sum(data@, j as int),
        decreases window - j,
    {
        if !data[j].is_nan() {
            sum = sum.add(data[j]);
        }
        j = j + 1;
    }
    let mut result = undefined_vec(window - 1);
    result.push(sum);
    let mut i: usize = window;
    while i < n
        invariant
            1 <= window <= i <= n,
            n == data@.len(),
            result@.len() == i,
            sum == skipping_sum(data@, window as nat, i - 1),
            forall|k: int|
                0 <= k < i ==> #[trigger] result@[k] == rolling_sum_at(data@, window as nat, k),
        decreases n - i,
    {
        if !data[i - window].is_nan() {
            sum = sum.sub(data[i - window]);
        }
        if !data[i].is_nan() {
            sum = sum.add(data[i]);
        }
        result.push(sum);
        i = i + 1;
    }
    assert(result@ =~= rolling_sums(data@, window as nat));
    result
}

// ---------------------------------------------------------------------------
// Exponential moving average over a series with gaps
// ---------------------------------------------------------------------------

/// The decayed sum of the samples among the first `n` that are not NaN.
pub open spec fn gapped_decayed_sum(data: Seq<Fp>, alpha: Fp, n: int) -> Fp
    decreases n,
{
    if n <= 0 {
        Fp(ZERO)
    } else if data[n - 1].nan() {
        gapped_decayed_sum(data, alpha, n - 1)
    } else {
        data[n - 1].add_spec(
            Fp(ONE).sub_spec(alpha).mul_spec(gapped_decayed_sum(data, alpha, n - 1)),
        )
    }
}

/// The decayed sum of the weights of the samples among the first `n` that
/// are not NaN.
pub open spec fn gapped_decayed_weight(data: Seq<Fp>, alpha: Fp, n: int) -> Fp
    decreases n,
{
    if n <= 0 {
        Fp(ZERO)
    } else if data[n - 1].nan() {
        gapped_decayed_weight(data, alpha, n - 1)
    } else {
        Fp(ONE).add_spec(
            Fp(ONE).sub_spec(alpha).mul_spec(gapped_decayed_weight(data, alpha, n - 1)),
        )
    }
}

/// The adjusted average at `i` of a series with gaps. At a sample that is
/// not NaN it is the decayed sum over the decayed weight, where that weight
/// is positive. At a NaN sample it is the value before, once any sample has
/// been seen.
pub open spec fn gapped_adjusted_at(data: Seq<Fp>, alpha: Fp, i: int) -> Fp
    decreases i + 1,
{
    if i < 0 {
        Fp(NAN)
    } else if !data[i].nan() {
        if gapped_decayed_weight(data, alpha, i + 1).gt_spec(Fp(ZERO)) {
            gapped_decayed_sum(data, alpha, i + 1).div_spec(
                gapped_decayed_weight(data, alpha, i + 1),
            )
        } else {
            Fp(NAN)
        }
    } else if valid_count(data, i) > 0 {
        gapped_adjusted_at(data, alpha, i - 1)
    } else {
        Fp(NAN)
    }
}

/// The plain average at `i` of a series with gaps: undefined until the
/// first sample that is not NaN, which seeds it; after that a NaN sample
/// carries it forward and any other sample is smoothed into it.
pub open spec fn gapped_plain_at(data: Seq<Fp>, alpha: Fp, i: int) -> Fp
    decreases i + 1,
{
    if i < 0 {
        Fp(NAN)
    } else if data[i].nan() {
        if valid_count(data, i) > 0 {
            gapped_plain_at(data, alpha, i - 1)
        } else {
            Fp(NAN)
        }
    } else if valid_count(data, i) == 0 {
        data[i]
    } else {
        smooth(alpha, data[i], gapped_plain_at(data, alpha, i - 1))
    }
}

pub open spec fn gapped_ema_at(data: Seq<Fp>, alpha: Fp, adjusted: bool, i: int) -> Fp {
    if adjusted {
        gapped_adjusted_at(data, alpha, i)
    } else {
        gapped_plain_at(data, alpha, i)
    }
}

/// The exponential moving average of a series with gaps.
pub open spec fn gapped_ema_series(data: Seq<Fp>, alpha: Fp, adjusted: bool) -> Seq<Fp> {
    Seq::new(data.len(), |i: int| gapped_ema_at(data, alpha, adjusted, i))
}

pub fn ema_kernel_nan_aware(data: &[Fp], alpha: Fp, adjusted: bool) -> (result: Vec<Fp>)
    ensures
        result@ == gapped_ema_series(data@, alpha, adjusted),
{
    let n = data.len();
    let mut result: Vec<Fp> = Vec::new();
    let mut started = false;
    let mut prev = Fp(NAN);
    let mut i: usize = 0;
    if adjusted {
        let one_minus_alpha = Fp(ONE).sub(alpha);
        let mut weighted_sum = Fp(ZERO);
        let mut weight_sum = Fp(ZERO);
        while i < n
            invariant
                i <= n,
                n == data@.len(),
                adjusted,
                one_minus_alpha == Fp(ONE).sub_spec(alpha),
                result@.len() == i,
                started == (valid_count(data@, i as int) > 0),
                weighted_sum == gapped_decayed_sum(data@, alpha, i as int),
                weight_sum == gapped_decayed_weight(data@, alpha, i as int),
                prev == gapped_adjusted_at(data@, alpha, i - 1),
                forall|k: int|
                    0 <= k < i ==> #[trigger] result@[k] == gapped_ema_at(
                        data@,
                        alpha,
                        adjusted,
                        k,
                    ),
            decreases n - i,
        {
            let x = data[i];
            if !x.is_nan() {
                weighted_sum = x.add(one_minus_alpha.mul(weighted_sum));
                weight_sum = Fp(ONE).add(one_minus_alpha.mul(weight_sum));
                prev = if weight_sum.gt(Fp(ZERO)) {
                    weighted_sum.div(weight_sum)
                } else {
                    Fp(NAN)
                };
                started = true;
            } else if !started {
                prev = Fp(NAN);
            }
            result.push(prev);
            i = i + 1;
        }
    } else {
        while i < n
            invariant
                i <= n,
                n == data@.len(),
                !adjusted,
                result@.len() == i,
                started == (valid_count(data@, i as int) > 0),
                prev == gapped_plain_at(data@, alpha, i - 1),
                forall|k: int|
                    0 <= k < i ==> #[trigger] result@[k] == gapped_ema_at(
                        data@,
                        alpha,
                        adjusted,
                        k,
                    ),
            decreases n - i,
        {
            let x = data[i];
            if !x.is_nan() {
                if started {
                    prev = smoothed(alpha, x, prev);
                } else {
                    prev = x;
                    started = true;
                }
            } else if !started {
                prev = Fp(NAN);
            }
            result.push(prev);
            i = i + 1;
        }
    }
    assert(result@ =~= gapped_ema_series(data@, alpha, adjusted));
    result
}

} // verus!
