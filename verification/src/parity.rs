//! Where the streaming form and the bulk form of an indicator are the same
//! function: fed a series sample by sample, the unit gives at every position
//! the very double that the bulk kernel puts there.

use vstd::prelude::*;
use crate::fp::{Fp, NAN};
use crate::series::{
    lemma_folds_of_cut, lemma_last_eq_of_cut, window_mean, sum_range, path_length, max_range,
    min_range,
};
use crate::window::{SamplesState, slide, tail};
use crate::helpers::{ema_series, ema_plain_at, decayed_sum, decayed_weight, rolling_stds};
use crate::trend::{wma_series, aroon_up_series, aroon_down_series};
use crate::others::{zscore_series, slope_series, percentile_series};
use crate::momentum::{momentum_series, kama_at, kama_series, abs_change_series};
use crate::streaming::run::{
    run, lemma_run_at, lemma_window_after, lemma_picked_window_after, lemma_reads_window,
};
use crate::streaming::trend::{
    EmaState, ema_unit, AdjustedEmaState, adjusted_ema_unit, WmaState, wma_unit, AroonState,
    aroon_unit,
};
use crate::streaming::volatility::std_unit;
use crate::streaming::others::{zscore_unit, slope_unit, percentile_unit};
use crate::streaming::momentum::{momentum_unit, KamaState, kama_unit};
use crate::formulas::ema_alpha;

verus! {

/// The window after the sample at `k` has slid in is the stretch of the
/// series that ends at `k`.
proof fn lemma_slide_is_stretch(data: Seq<Fp>, window: nat, k: int)
    requires
        window >= 1,
        0 <= k < data.len(),
    ensures
        slide(tail(data.take(k), window), data[k], window) == if k + 1 >= window {
            data.subrange(k + 1 - window, k + 1)
        } else {
            data.take(k + 1)
        },
{
    let next = slide(tail(data.take(k), window), data[k], window);
    if k + 1 >= window {
        assert(next =~= data.subrange(k + 1 - window, k + 1));
    } else {
        assert(next =~= data.take(k + 1));
    }
}

/// Streaming and bulk agree on the weighted moving average, at every
/// position of every series.
pub proof fn lemma_wma_parity(data: Seq<Fp>, window: nat, k: int)
    requires
        window >= 1,
        0 <= k < data.len(),
    ensures
        run(wma_unit(), WmaState::init(window), data).1[k] == wma_series(data, window)[k],
{
    lemma_run_at(wma_unit(), WmaState::init(window), data, k);
    lemma_window_after(
        wma_unit(),
        |s: WmaState| s.window == window,
        |s: WmaState| s.buffer,
        window,
        WmaState::init(window),
        data.take(k),
    );
    lemma_slide_is_stretch(data, window, k);
    if k + 1 >= window {
        lemma_folds_of_cut(data, k + 1 - window, k + 1, 0, window as int, Fp(NAN));
    }
}

/// Streaming and bulk agree on the rolling population standard deviation,
/// at every position of every series.
pub proof fn lemma_std_parity(data: Seq<Fp>, window: nat, k: int)
    requires
        window >= 1,
        0 <= k < data.len(),
    ensures
        run(std_unit(), SamplesState::init(window), data).1[k] == rolling_stds(data, window)[k],
{
    lemma_run_at(std_unit(), SamplesState::init(window), data, k);
    lemma_window_after(
        std_unit(),
        |s: SamplesState| s.window == window,
        |s: SamplesState| s.buffer,
        window,
        SamplesState::init(window),
        data.take(k),
    );
    lemma_slide_is_stretch(data, window, k);
    if k + 1 >= window {
        let lo = k + 1 - window;
        let cut = data.subrange(lo, k + 1);
        lemma_folds_of_cut(data, lo, k + 1, 0, window as int, Fp(NAN));
        let mean = window_mean(cut, window);
        lemma_folds_of_cut(data, lo, k + 1, 0, window as int, mean);
    }
}

/// Streaming and bulk agree on the rolling z-score, at every position of
/// every series.
pub proof fn lemma_zscore_parity(data: Seq<Fp>, window: nat, k: int)
    requires
        window >= 1,
        0 <= k < data.len(),
    ensures
        run(zscore_unit(), SamplesState::init(window), data).1[k] == zscore_series(data, window)[k],
{
    lemma_run_at(zscore_unit(), SamplesState::init(window), data, k);
    lemma_window_after(
        zscore_unit(),
        |s: SamplesState| s.window == window,
        |s: SamplesState| s.buffer,
        window,
        SamplesState::init(window),
        data.take(k),
    );
    lemma_slide_is_stretch(data, window, k);
    if k + 1 >= window {
        let lo = k + 1 - window;
        let cut = data.subrange(lo, k + 1);
        lemma_folds_of_cut(data, lo, k + 1, 0, window as int, Fp(NAN));
        lemma_folds_of_cut(data, lo, k + 1, 0, window as int, window_mean(cut, window));
    }
}

/// Streaming and bulk agree on the linear regression slope, at every
/// position of every series.
pub proof fn lemma_slope_parity(data: Seq<Fp>, window: nat, k: int)
    requires
        window >= 1,
        0 <= k < data.len(),
    ensures
        run(slope_unit(), SamplesState::init(window), data).1[k] == slope_series(data, window)[k],
{
    lemma_run_at(slope_unit(), SamplesState::init(window), data, k);
    lemma_window_after(
        slope_unit(),
        |s: SamplesState| s.window == window,
        |s: SamplesState| s.buffer,
        window,
        SamplesState::init(window),
        data.take(k),
    );
    lemma_slide_is_stretch(data, window, k);
    if k + 1 >= window {
        lemma_folds_of_cut(data, k + 1 - window, k + 1, 0, window as int, Fp(NAN));
    }
}

/// Streaming and bulk agree on the rolling percentile, at every position of
/// every series.
pub proof fn lemma_percentile_parity(data: Seq<Fp>, window: nat, k: int)
    requires
        window >= 1,
        0 <= k < data.len(),
    ensures
        run(percentile_unit(), SamplesState::init(window), data).1[k] == percentile_series(
            data,
            window,
        )[k],
{
    lemma_run_at(percentile_unit(), SamplesState::init(window), data, k);
    lemma_window_after(
        percentile_unit(),
        |s: SamplesState| s.window == window,
        |s: SamplesState| s.buffer,
        window,
        SamplesState::init(window),
        data.take(k),
    );
    lemma_slide_is_stretch(data, window, k);
    if k + 1 >= window {
        lemma_folds_of_cut(data, k + 1 - window, k + 1, 0, window as int, data[k]);
    }
}

/// Streaming and bulk agree on momentum once the window is full, with the
/// periods one apart: a unit that holds `window` samples looks back
/// `window` less one places.
pub proof fn lemma_momentum_parity(data: Seq<Fp>, window: nat, k: int)
    requires
        window >= 1,
        window - 1 <= k < data.len(),
    ensures
        run(momentum_unit(), SamplesState::init(window), data).1[k] == momentum_series(
            data,
            (window - 1) as nat,
        )[k],
{
    lemma_run_at(momentum_unit(), SamplesState::init(window), data, k);
    lemma_window_after(
        momentum_unit(),
        |s: SamplesState| s.window == window,
        |s: SamplesState| s.buffer,
        window,
        SamplesState::init(window),
        data.take(k),
    );
    lemma_slide_is_stretch(data, window, k);
}

/// The state of the adjusted exponential average after the first `n`
/// samples of a series, `n` at least one.
proof fn lemma_adjusted_ema_state(data: Seq<Fp>, window: nat, n: int)
    requires
        1 <= n <= data.len(),
    ensures
        run(adjusted_ema_unit(), AdjustedEmaState::init(window), data.take(n)).0 == (
        AdjustedEmaState {
            window,
            alpha: ema_alpha(window),
            started: true,
            weighted_sum: decayed_sum(data, ema_alpha(window), n - 1),
            divisor: decayed_weight(ema_alpha(window), n - 1),
        }),
    decreases n,
{
    let unit = adjusted_ema_unit();
    let start = AdjustedEmaState::init(window);
    let prefix = data.take(n);
    assert(prefix.drop_last() =~= data.take(n - 1));
    assert(prefix.last() == data[n - 1]);
    let mid = run(unit, start, data.take(n - 1)).0;
    assert(run(unit, start, prefix).0 == unit(mid, data[n - 1]).0);
    if n > 1 {
        lemma_adjusted_ema_state(data, window, n - 1);
    } else {
        assert(data.take(0) =~= Seq::<Fp>::empty());
        assert(mid == start);
    }
    assert(unit(mid, data[n - 1]) == mid.step(data[n - 1]));
}

/// Streaming and bulk agree on the exponential average with adjusted
/// weights, at every position of every series.
pub proof fn lemma_adjusted_ema_parity(data: Seq<Fp>, window: nat, k: int)
    requires
        0 <= k < data.len(),
    ensures
        run(adjusted_ema_unit(), AdjustedEmaState::init(window), data).1[k] == ema_series(
            data,
            ema_alpha(window),
            true,
        )[k],
{
    lemma_run_at(adjusted_ema_unit(), AdjustedEmaState::init(window), data, k);
    if k >= 1 {
        lemma_adjusted_ema_state(data, window, k);
    } else {
        assert(data.take(0) =~= Seq::<Fp>::empty());
    }
}

/// Whether none of the plain exponential averages of a series before
/// position `n` is a NaN.
pub open spec fn averages_defined(data: Seq<Fp>, alpha: Fp, n: int) -> bool {
    forall|j: int| 0 <= j < n ==> !(#[trigger] ema_plain_at(data, alpha, j)).nan()
}

/// The state of the exponential average after the first `n` samples of a
/// series, `n` at least one, where no average before was a NaN.
proof fn lemma_ema_state(data: Seq<Fp>, window: nat, n: int)
    requires
        1 <= n <= data.len(),
        averages_defined(data, ema_alpha(window), n - 1),
    ensures
        run(ema_unit(), EmaState::init(window), data.take(n)).0 == (EmaState {
            window,
            alpha: ema_alpha(window),
            current: ema_plain_at(data, ema_alpha(window), n - 1),
        }),
    decreases n,
{
    let unit = ema_unit();
    let start = EmaState::init(window);
    let prefix = data.take(n);
    assert(prefix.drop_last() =~= data.take(n - 1));
    assert(prefix.last() == data[n - 1]);
    let mid = run(unit, start, data.take(n - 1)).0;
    assert(run(unit, start, prefix).0 == unit(mid, data[n - 1]).0);
    if n > 1 {
        lemma_ema_state(data, window, n - 1);
        assert(!ema_plain_at(data, ema_alpha(window), n - 2).nan());
    } else {
        assert(data.take(0) =~= Seq::<Fp>::empty());
        assert(mid == start);
    }
    assert(unit(mid, data[n - 1]) == mid.step(data[n - 1]));
}

/// Streaming and bulk agree on the plain exponential average at every
/// position up to which no average is a NaN. After a NaN the two part: the
/// bulk kernel carries the NaN on, and the unit seeds itself again.
pub proof fn lemma_ema_parity(data: Seq<Fp>, window: nat, k: int)
    requires
        0 <= k < data.len(),
        averages_defined(data, ema_alpha(window), k),
    ensures
        run(ema_unit(), EmaState::init(window), data).1[k] == ema_series(
            data,
            ema_alpha(window),
            false,
        )[k],
{
    lemma_run_at(ema_unit(), EmaState::init(window), data, k);
    if k >= 1 {
        lemma_ema_state(data, window, k);
        assert(!ema_plain_at(data, ema_alpha(window), k - 1).nan());
    } else {
        assert(data.take(0) =~= Seq::<Fp>::empty());
    }
}

/// The bars of a series of highs and a series of lows of one length.
pub open spec fn high_low_bars(high: Seq<Fp>, low: Seq<Fp>) -> Seq<(Fp, Fp)> {
    Seq::new(high.len(), |i: int| (high[i], low[i]))
}

/// Streaming and bulk agree on Aroon, at every position of every series:
/// both read the `window` bars that end at the position and divide by the
/// `window` less one steps between them.
pub proof fn lemma_aroon_parity(high: Seq<Fp>, low: Seq<Fp>, window: nat, k: int)
    requires
        low.len() == high.len(),
        window >= 1,
        0 <= k < high.len(),
    ensures
        run(aroon_unit(), AroonState::init(window), high_low_bars(high, low)).1[k] == (
            aroon_up_series(high, window)[k],
            aroon_down_series(low, window)[k],
        ),
{
    let bars = high_low_bars(high, low);
    let start = AroonState::init(window);
    lemma_run_at(aroon_unit(), start, bars, k);
    let before = bars.take(k);
    lemma_picked_window_after(
        aroon_unit(),
        |s: AroonState| s.window == window,
        |s: AroonState| s.highs,
        |x: (Fp, Fp)| x.0,
        window,
        start,
        before,
    );
    lemma_picked_window_after(
        aroon_unit(),
        |s: AroonState| s.window == window,
        |s: AroonState| s.lows,
        |x: (Fp, Fp)| x.1,
        window,
        start,
        before,
    );
    assert(before.map_values(|x: (Fp, Fp)| x.0) =~= high.take(k));
    assert(before.map_values(|x: (Fp, Fp)| x.1) =~= low.take(k));
    lemma_slide_is_stretch(high, window, k);
    lemma_slide_is_stretch(low, window, k);
    if k + 1 >= window {
        let lo = k + 1 - window;
        lemma_folds_of_cut(high, lo, k + 1, 0, window as int, Fp(NAN));
        lemma_folds_of_cut(low, lo, k + 1, 0, window as int, Fp(NAN));
        lemma_last_eq_of_cut(high, max_range(high, lo, k + 1), lo, k + 1, window as int);
        lemma_last_eq_of_cut(low, min_range(low, lo, k + 1), lo, k + 1, window as int);
    }
}

/// The path through a stretch cut out of a series is the sum of the
/// absolute changes of the series along that stretch.
proof fn lemma_path_of_cut(close: Seq<Fp>, lo: int, hi: int, m: int)
    requires
        0 <= lo <= hi <= close.len(),
        0 <= m < hi - lo,
    ensures
        path_length(close.subrange(lo, hi), m + 1) == sum_range(
            abs_change_series(close),
            lo + 1,
            lo + 1 + m,
        ),
    decreases m,
{
    if m > 0 {
        lemma_path_of_cut(close, lo, hi, m - 1);
        let cut = close.subrange(lo, hi);
        assert(cut[m] == close[lo + m]);
        assert(cut[m - 1] == close[lo + m - 1]);
    }
}

/// The state of the adaptive moving average after the first `n` prices of
/// a series that is longer than the window.
proof fn lemma_kama_state(data: Seq<Fp>, window: nat, fast_sc: Fp, slow_sc: Fp, n: int)
    requires
        1 <= window < data.len(),
        0 <= n <= data.len(),
    ensures
        run(kama_unit(), KamaState::init(window, fast_sc, slow_sc), data.take(n)).0 == (
        KamaState {
            window,
            fast_sc,
            slow_sc,
            prices: tail(data.take(n), window),
            prev_kama: kama_at(data, window, fast_sc, slow_sc, n - 1),
        }),
        n >= 1 ==> run(kama_unit(), KamaState::init(window, fast_sc, slow_sc), data.take(n)).1[n
            - 1] == kama_at(data, window, fast_sc, slow_sc, n - 1),
    decreases n,
{
    let unit = kama_unit();
    let start = KamaState::init(window, fast_sc, slow_sc);
    if n == 0 {
        assert(data.take(0) =~= Seq::<Fp>::empty());
        assert(tail(data.take(0), window) =~= Seq::<Fp>::empty());
    } else {
        let k = n - 1;
        let prefix = data.take(n);
        assert(prefix.drop_last() =~= data.take(k));
        assert(prefix.last() == data[k]);
        lemma_kama_state(data, window, fast_sc, slow_sc, k);
        let mid = run(unit, start, data.take(k)).0;
        assert(run(unit, start, prefix).0 == unit(mid, data[k]).0);
        assert(run(unit, start, prefix).1 == run(unit, start, data.take(k)).1.push(
            unit(mid, data[k]).1,
        ));
        crate::streaming::run::lemma_run_len(unit, start, data.take(k));
        assert(unit(mid, data[k]) == mid.step(data[k]));
        lemma_slide_is_stretch(data, window, k);
        assert(tail(prefix, window) =~= if k + 1 >= window {
            data.subrange(k + 1 - window, k + 1)
        } else {
            data.take(k + 1)
        });
        if k >= window {
            let lo = k - window;
            assert(mid.prices =~= data.subrange(lo, k));
            assert(mid.prices.push(data[k]) =~= data.subrange(lo, k + 1));
            lemma_path_of_cut(data, lo, k + 1, window as int);
            assert(data.subrange(lo, k + 1)[0] == data[lo]);
            assert(data.subrange(lo, k + 1)[window as int] == data[k]);
        }
    }
}

/// Streaming and bulk agree on the adaptive moving average, at every
/// position of every series that is longer than the window. A series no
/// longer than the window gives nothing in bulk, while the unit, which
/// cannot know the length, gives its seed at the `window`-th price.
pub proof fn lemma_kama_parity(data: Seq<Fp>, window: nat, n_fast: nat, n_slow: nat, k: int)
    requires
        1 <= window < data.len(),
        0 <= k < data.len(),
    ensures
        run(
            kama_unit(),
            KamaState::init(window, ema_alpha(n_fast), ema_alpha(n_slow)),
            data,
        ).1[k] == kama_series(data, window, n_fast, n_slow)[k],
{
    let unit = kama_unit();
    let start = KamaState::init(window, ema_alpha(n_fast), ema_alpha(n_slow));
    lemma_run_at(unit, start, data, k);
    lemma_kama_state(data, window, ema_alpha(n_fast), ema_alpha(n_slow), k + 1);
    lemma_run_at(unit, start, data.take(k + 1), k);
    assert(data.take(k + 1).take(k) =~= data.take(k));
}

/// Bounded memory. A weighted moving average reads the last `window`
/// samples and nothing older: on two series that end in the same `window`
/// samples its last output is the same.
pub proof fn lemma_wma_reads_tail(a: Seq<Fp>, b: Seq<Fp>, window: nat)
    requires
        window >= 1,
        a.len() >= window,
        b.len() >= window,
        tail(a, window) == tail(b, window),
    ensures
        run(wma_unit(), WmaState::init(window), a).1[a.len() - 1] == run(
            wma_unit(),
            WmaState::init(window),
            b,
        ).1[b.len() - 1],
{
    let (la, lb) = (a.len() as int, b.len() as int);
    lemma_wma_parity(a, window, la - 1);
    lemma_wma_parity(b, window, lb - 1);
    assert(tail(a, window) =~= a.subrange(la - window, la));
    assert(tail(b, window) =~= b.subrange(lb - window, lb));
    lemma_folds_of_cut(a, la - window, la, 0, window as int, Fp(NAN));
    lemma_folds_of_cut(b, lb - window, lb, 0, window as int, Fp(NAN));
}

/// Bounded memory, for every unit whose state is its window of samples and
/// whose output reads the window only after the sample has slid in: on two
/// series that end in the same `window` samples its last output is the
/// same.
pub proof fn lemma_same_tail_same_output<O>(
    step: spec_fn(SamplesState, Fp) -> (SamplesState, O),
    window: nat,
    a: Seq<Fp>,
    b: Seq<Fp>,
)
    requires
        window >= 1,
        forall|s: SamplesState, x: Fp| #[trigger] step(s, x).0 == s.pushed(x),
        forall|s: SamplesState, t: SamplesState, x: Fp|
            s.pushed(x) == t.pushed(x) ==> #[trigger] step(s, x).1 == #[trigger] step(t, x).1,
        a.len() >= window,
        b.len() >= window,
        tail(a, window) == tail(b, window),
    ensures
        run(step, SamplesState::init(window), a).1[a.len() - 1] == run(
            step,
            SamplesState::init(window),
            b,
        ).1[b.len() - 1],
{
    let (la, lb) = (a.len() as int, b.len() as int);
    lemma_reads_window(step, window, a, la - 1);
    lemma_reads_window(step, window, b, lb - 1);
    lemma_slide_is_stretch(a, window, la - 1);
    lemma_slide_is_stretch(b, window, lb - 1);
    assert(tail(a, window) =~= a.subrange(la - window, la));
    assert(tail(b, window) =~= b.subrange(lb - window, lb));
    assert(tail(a, window)[window - 1] == a[la - 1]);
    assert(tail(b, window)[window - 1] == b[lb - 1]);
    let s = SamplesState { window, buffer: tail(a.take(la - 1), window) };
    let t = SamplesState { window, buffer: tail(b.take(lb - 1), window) };
    assert(s.pushed(a[la - 1]) == t.pushed(b[lb - 1]));
}

} // verus!
