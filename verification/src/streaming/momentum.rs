//! Streaming momentum indicators.

use vstd::prelude::*;
use crate::fp::{Fp, NAN, ZERO, ONE, TWO, FOUR, SEVEN, FIFTY, HUNDRED, NEG_HUNDRED, of_nat};
use crate::series::{
    sum, sum_range, sum_of, max_range, min_range, max_of, min_of, bump, bumped, path_length,
    path_length_of,
};
use crate::window::{Window, SamplesState, slide};
use crate::streaming::trend::{
    SMAStreaming, SmaState, EMAStreaming, EmaState, AdjustedEMAStreaming, AdjustedEmaState,
    NanAwareSMAStreaming, NanAwareSmaState,
};
use crate::streaming::run::{
    run, lemma_quiet_before, lemma_reset_replays, lemma_run_at, lemma_run_keeps_on,
    lemma_count_after,
};
use crate::formulas::{
    adaptive_constant, ema_alpha, gain_of, loss_of, percent_change, percent_change_of, percent_k,
    percent_r, share_of_range, smooth, smoothed, strength_index, strength_index_of,
    true_range_after, true_range_step, usable_constant, wilder_alpha, wilder_constant_is_usable,
};

verus! {

// ---------------------------------------------------------------------------
// RSI
// ---------------------------------------------------------------------------

/// State of the relative strength index: the previous close, the smoothed
/// gain and loss, and the number of samples seen.
pub struct RsiState {
    pub window: nat,
    pub alpha: Fp,
    pub prev_close: Fp,
    pub avg_gain: Fp,
    pub avg_loss: Fp,
    pub count: nat,
}

impl RsiState {
    /// The state of a new unit.
    pub open spec fn init(window: nat) -> RsiState {
        RsiState {
            window,
            alpha: wilder_alpha(window),
            prev_close: Fp(NAN),
            avg_gain: Fp(NAN),
            avg_loss: Fp(NAN),
            count: 0,
        }
    }

    /// The first sample only seeds the previous close. The first change seeds
    /// the two averages; later changes are smoothed into them with Wilder's
    /// constant. The index is reported once `window` samples have been seen.
    pub open spec fn step(self, value: Fp) -> (RsiState, Fp) {
        let count = bump(self.count);
        if count == 1 {
            (RsiState { prev_close: value, count, ..self }, Fp(NAN))
        } else {
            let change = value.sub_spec(self.prev_close);
            let (avg_gain, avg_loss) = if self.avg_gain.nan() {
                (gain_of(change), loss_of(change))
            } else {
                (
                    smooth(self.alpha, gain_of(change), self.avg_gain),
                    smooth(self.alpha, loss_of(change), self.avg_loss),
                )
            };
            let out = if count >= self.window {
                strength_index(avg_gain, avg_loss)
            } else {
                Fp(NAN)
            };
            (RsiState { prev_close: value, avg_gain, avg_loss, count, ..self }, out)
        }
    }
}

/// Streaming relative strength index.
pub struct RSIStreaming {
    window: usize,
    alpha: Fp,
    prev_close: Fp,
    avg_gain: Fp,
    avg_loss: Fp,
    update_count: usize,
}

impl View for RSIStreaming {
    type V = RsiState;

    closed spec fn view(&self) -> RsiState {
        RsiState {
            window: self.window as nat,
            alpha: self.alpha,
            prev_close: self.prev_close,
            avg_gain: self.avg_gain,
            avg_loss: self.avg_loss,
            count: self.update_count as nat,
        }
    }
}

impl RSIStreaming {
    /// What the unit keeps true of its own fields between calls.
    pub closed spec fn wf(&self) -> bool {
        &&& self.window >= 1
        &&& self.alpha == wilder_alpha(self.window as nat)
    }

    pub fn new(window: usize) -> (r: Self)
        requires
            window >= 1,
        ensures
            r.wf(),
            r@ == RsiState::init(window as nat),
    {
        RSIStreaming {
            window,
            alpha: Fp(ONE).div(Fp::from_usize(window)),
            prev_close: Fp(NAN),
            avg_gain: Fp(NAN),
            avg_loss: Fp(NAN),
            update_count: 0,
        }
    }

    pub fn update(&mut self, value: Fp) -> (r: Fp)
        requires
            old(self).wf(),
        ensures
            final(self).wf(),
            (final(self)@, r) == old(self)@.step(value),
    {
        self.update_count = bumped(self.update_count);
        if self.update_count == 1 {
            self.prev_close = value;
            return Fp(NAN);
        }
        let change = value.sub(self.prev_close);
        let (current_gain, current_loss) = if change.gt(Fp(ZERO)) {
            (change, Fp(ZERO))
        } else {
            (Fp(ZERO), change.neg())
        };
        if self.avg_gain.is_nan() {
            self.avg_gain = current_gain;
            self.avg_loss = current_loss;
        } else {
            self.avg_gain = smoothed(self.alpha, current_gain, self.avg_gain);
            self.avg_loss = smoothed(self.alpha, current_loss, self.avg_loss);
        }
        let rsi = strength_index_of(self.avg_gain, self.avg_loss);
        self.prev_close = value;
        if self.update_count >= self.window {
            rsi
        } else {
            Fp(NAN)
        }
    }

    /// Returns the unit to the state it was made in.
    pub fn reset(&mut self)
        requires
            old(self).wf(),
        ensures
            final(self).wf(),
            final(self)@.alpha == old(self)@.alpha,
            final(self)@ == RsiState::init(old(self)@.window),
    {
        self.prev_close = Fp(NAN);
        self.avg_gain = Fp(NAN);
        self.avg_loss = Fp(NAN);
        self.update_count = 0;
    }
}

/// The relative strength index as a step from state and input to state and output.
pub open spec fn rsi_unit() -> spec_fn(RsiState, Fp) -> (RsiState, Fp) {
    |s: RsiState, x: Fp| s.step(x)
}

/// Warm-up: a new relative strength index gives nothing before its `window`-th sample.
pub proof fn lemma_rsi_warm_up(window: nat, inputs: Seq<Fp>, k: int)
    requires
        0 <= k < inputs.len(),
        k + 1 < window,
    ensures
        run(rsi_unit(), RsiState::init(window), inputs).1[k] == Fp(NAN),
{
    lemma_quiet_before(
        rsi_unit(),
        |s: RsiState| s.window == window,
        |s: RsiState| s.count,
        |o: Fp| o == Fp(NAN),
        window,
        RsiState::init(window),
        inputs,
        k,
    );
}

/// Reset idempotence: a unit that has seen `before`, is reset, and then
/// sees `replay` does what a new one does on `replay`.
pub proof fn lemma_rsi_reset_replays(window: nat, before: Seq<Fp>, replay: Seq<Fp>)
    ensures
        ({
            let new = RsiState::init(window);
            let s = run(rsi_unit(), new, before).0;
            run(rsi_unit(), RsiState::init(s.window), replay) == run(rsi_unit(), new, replay)
        }),
{
    lemma_reset_replays(
        rsi_unit(),
        |s: RsiState| RsiState::init(s.window),
        RsiState::init(window),
        before,
        replay,
    );
}

// ---------------------------------------------------------------------------
// Stochastic oscillator
// ---------------------------------------------------------------------------

/// State of the stochastic oscillator: the last highs and lows, and the last
/// values of %K.
pub struct StochasticState {
    pub k_period: nat,
    pub d_period: nat,
    pub highs: Seq<Fp>,
    pub lows: Seq<Fp>,
    pub ks: Seq<Fp>,
}

impl StochasticState {
    /// The state of a new unit.
    pub open spec fn init(k_period: nat, d_period: nat) -> StochasticState {
        StochasticState {
            k_period,
            d_period,
            highs: Seq::empty(),
            lows: Seq::empty(),
            ks: Seq::empty(),
        }
    }

    pub open spec fn valid(self) -> bool {
        &&& self.k_period >= 1
        &&& self.d_period >= 1
        &&& self.highs.len() <= self.k_period
        &&& self.lows.len() == self.highs.len()
        &&& self.ks.len() <= self.d_period
    }

    /// Both values are undefined until `k_period` bars have arrived. Then %K
    /// is the place of the close in the window's range, and %D the mean of
    /// the last `d_period` values of %K, once there are that many.
    pub open spec fn step(self, high: Fp, low: Fp, close: Fp) -> (StochasticState, (Fp, Fp)) {
        let highs = slide(self.highs, high, self.k_period);
        let lows = slide(self.lows, low, self.k_period);
        if highs.len() < self.k_period {
            (StochasticState { highs, lows, ..self }, (Fp(NAN), Fp(NAN)))
        } else {
            let n = highs.len() as int;
            let k = percent_k(close, min_range(lows, 0, n), max_range(highs, 0, n));
            let ks = slide(self.ks, k, self.d_period);
            let d = if ks.len() >= self.d_period {
                sum(ks).div_spec(of_nat(ks.len()))
            } else {
                Fp(NAN)
            };
            (StochasticState { highs, lows, ks, ..self }, (k, d))
        }
    }
}

/// Streaming stochastic oscillator.
pub struct StochasticStreaming {
    k_period: usize,
    d_period: usize,
    high_buffer: Window,
    low_buffer: Window,
    percent_k_buffer: Window,
}

impl View for StochasticStreaming {
    type V = StochasticState;

    closed spec fn view(&self) -> StochasticState {
        StochasticState {
            k_period: self.k_period as nat,
            d_period: self.d_period as nat,
            highs: self.high_buffer@,
            lows: self.low_buffer@,
            ks: self.percent_k_buffer@,
        }
    }
}

impl StochasticStreaming {
    /// What the unit keeps true of its own fields between calls.
    pub closed spec fn wf(&self) -> bool {
        &&& self.k_period >= 1
        &&& self.d_period >= 1
        &&& self.high_buffer.wf()
        &&& self.low_buffer.wf()
        &&& self.percent_k_buffer.wf()
        &&& self.high_buffer.capacity() == self.k_period
        &&& self.low_buffer.capacity() == self.k_period
        &&& self.percent_k_buffer.capacity() == self.d_period
        &&& self.low_buffer@.len() == self.high_buffer@.len()
    }

    pub fn new(k_period: usize, d_period: usize) -> (r: Self)
        requires
            k_period >= 1,
            d_period >= 1,
        ensures
            r.wf(),
            r@ == StochasticState::init(k_period as nat, d_period as nat),
    {
        StochasticStreaming {
            k_period,
            d_period,
            high_buffer: Window::new(k_period),
            low_buffer: Window::new(k_period),
            percent_k_buffer: Window::new(d_period),
        }
    }

    /// Returns %K and %D.
    pub fn update(&mut self, high: Fp, low: Fp, close: Fp) -> (r: (Fp, Fp))
        requires
            old(self).wf(),
        ensures
            final(self).wf(),
            final(self)@.valid(),
            (final(self)@, r) == old(self)@.step(high, low, close),
    {
        self.high_buffer.push(high);
        self.low_buffer.push(low);
        if self.high_buffer.len() < self.k_period {
            return (Fp(NAN), Fp(NAN));
        }
        let n = self.high_buffer.len();
        let highest_high = max_of(&self.high_buffer, 0, n);
        let lowest_low = min_of(&self.low_buffer, 0, n);
        let k = if highest_high.ne(lowest_low) {
            Fp(HUNDRED).mul(close.sub(lowest_low)).div(highest_high.sub(lowest_low))
        } else {
            Fp(FIFTY)
        };
        self.percent_k_buffer.push(k);
        let d = if self.percent_k_buffer.len() >= self.d_period {
            let m = self.percent_k_buffer.len();
            sum_of(&self.percent_k_buffer, 0, m).div(Fp::from_usize(m))
        } else {
            Fp(NAN)
        };
        (k, d)
    }

    /// Returns the unit to the state it was made in.
    pub fn reset(&mut self)
        requires
            old(self).wf(),
        ensures
            final(self).wf(),
            final(self)@ == StochasticState::init(old(self)@.k_period, old(self)@.d_period),
    {
        self.high_buffer.clear();
        self.low_buffer.clear();
        self.percent_k_buffer.clear();
    }
}

/// The stochastic oscillator as a step from state and input to state and output.
pub open spec fn stochastic_unit() -> spec_fn(StochasticState, (Fp, Fp, Fp)) -> (
    StochasticState,
    (Fp, Fp),
) {
    |s: StochasticState, x: (Fp, Fp, Fp)| s.step(x.0, x.1, x.2)
}

/// Warm-up: a new stochastic oscillator gives nothing before its `k_period`-th bar.
pub proof fn lemma_stochastic_warm_up(
    k_period: nat,
    d_period: nat,
    inputs: Seq<(Fp, Fp, Fp)>,
    k: int,
)
    requires
        0 <= k < inputs.len(),
        k + 1 < k_period,
    ensures
        ({
            let o = run(stochastic_unit(), StochasticState::init(k_period, d_period), inputs).1[k];
            o.0 == Fp(NAN) && o.1 == Fp(NAN)
        }),
{
    lemma_quiet_before(
        stochastic_unit(),
        |s: StochasticState| s.k_period == k_period,
        |s: StochasticState| s.highs.len(),
        |o: (Fp, Fp)| o.0 == Fp(NAN) && o.1 == Fp(NAN),
        k_period,
        StochasticState::init(k_period, d_period),
        inputs,
        k,
    );
}

/// Reset idempotence: a unit that has seen `before`, is reset, and then
/// sees `replay` does what a new one does on `replay`.
pub proof fn lemma_stochastic_reset_replays(
    k_period: nat,
    d_period: nat,
    before: Seq<(Fp, Fp, Fp)>,
    replay: Seq<(Fp, Fp, Fp)>,
)
    ensures
        ({
            let new = StochasticState::init(k_period, d_period);
            let s = run(stochastic_unit(), new, before).0;
            run(stochastic_unit(), StochasticState::init(s.k_period, s.d_period), replay)
                == run(stochastic_unit(), new, replay)
        }),
{
    lemma_reset_replays(
        stochastic_unit(),
        |s: StochasticState| StochasticState::init(s.k_period, s.d_period),
        StochasticState::init(k_period, d_period),
        before,
        replay,
    );
}

// ---------------------------------------------------------------------------
// Williams %R
// ---------------------------------------------------------------------------

/// State of Williams %R: the last highs and lows.
pub struct WilliamsRState {
    pub window: nat,
    pub highs: Seq<Fp>,
    pub lows: Seq<Fp>,
}

impl WilliamsRState {
    /// The state of a new unit.
    pub open spec fn init(window: nat) -> WilliamsRState {
        WilliamsRState { window, highs: Seq::empty(), lows: Seq::empty() }
    }

    pub open spec fn valid(self) -> bool {
        &&& self.window >= 1
        &&& self.highs.len() <= self.window
        &&& self.lows.len() == self.highs.len()
    }

    /// Undefined until `window` bars have arrived.
    pub open spec fn step(self, high: Fp, low: Fp, close: Fp) -> (WilliamsRState, Fp) {
        let highs = slide(self.highs, high, self.window);
        let lows = slide(self.lows, low, self.window);
        let out = if highs.len() < self.window {
            Fp(NAN)
        } else {
            let n = highs.len() as int;
            percent_r(close, min_range(lows, 0, n), max_range(highs, 0, n))
        };
        (WilliamsRState { window: self.window, highs, lows }, out)
    }
}

/// Streaming Williams %R.
pub struct WilliamsRStreaming {
    window: usize,
    high_buffer: Window,
    low_buffer: Window,
}

impl View for WilliamsRStreaming {
    type V = WilliamsRState;

    closed spec fn view(&self) -> WilliamsRState {
        WilliamsRState {
            window: self.window as nat,
            highs: self.high_buffer@,
            lows: self.low_buffer@,
        }
    }
}

impl WilliamsRStreaming {
    /// What the unit keeps true of its own fields between calls.
    pub closed spec fn wf(&self) -> bool {
        &&& self.window >= 1
        &&& self.high_buffer.wf()
        &&& self.low_buffer.wf()
        &&& self.high_buffer.capacity() == self.window
        &&& self.low_buffer.capacity() == self.window
        &&& self.low_buffer@.len() == self.high_buffer@.len()
    }

    pub fn new(window: usize) -> (r: Self)
        requires
            window >= 1,
        ensures
            r.wf(),
            r@ == WilliamsRState::init(window as nat),
    {
        WilliamsRStreaming {
            window,
            high_buffer: Window::new(window),
            low_buffer: Window::new(window),
        }
    }

    pub fn update(&mut self, high: Fp, low: Fp, close: Fp) -> (r: Fp)
        requires
            old(self).wf(),
        ensures
            final(self).wf(),
            final(self)@.valid(),
            (final(self)@, r) == old(self)@.step(high, low, close),
    {
        self.high_buffer.push(high);
        self.low_buffer.push(low);
        if self.high_buffer.len() < self.window {
            Fp(NAN)
        } else {
            let n = self.high_buffer.len();
            let highest_high = max_of(&self.high_buffer, 0, n);
            let lowest_low = min_of(&self.low_buffer, 0, n);
            if highest_high.ne(lowest_low) {
                Fp(NEG_HUNDRED).mul(highest_high.sub(close)).div(highest_high.sub(lowest_low))
            } else {
                Fp(NEG_HUNDRED)
            }
        }
    }

    /// Returns the unit to the state it was made in.
    pub fn reset(&mut self)
        requires
            old(self).wf(),
        ensures
            final(self).wf(),
            final(self)@ == WilliamsRState::init(old(self)@.window),
    {
        self.high_buffer.clear();
        self.low_buffer.clear();
    }
}

/// The Williams %R as a step from state and input to state and output.
pub open spec fn williams_r_unit() -> spec_fn(WilliamsRState, (Fp, Fp, Fp)) -> (
    WilliamsRState,
    Fp,
) {
    |s: WilliamsRState, x: (Fp, Fp, Fp)| s.step(x.0, x.1, x.2)
}

/// Warm-up: a new Williams %R gives nothing before its `window`-th bar.
pub proof fn lemma_williams_r_warm_up(window: nat, inputs: Seq<(Fp, Fp, Fp)>, k: int)
    requires
        0 <= k < inputs.len(),
        k + 1 < window,
    ensures
        run(williams_r_unit(), WilliamsRState::init(window), inputs).1[k] == Fp(NAN),
{
    lemma_quiet_before(
        williams_r_unit(),
        |s: WilliamsRState| s.window == window,
        |s: WilliamsRState| s.highs.len(),
        |o: Fp| o == Fp(NAN),
        window,
        WilliamsRState::init(window),
        inputs,
        k,
    );
}

/// Reset idempotence: a unit that has seen `before`, is reset, and then
/// sees `replay` does what a new one does on `replay`.
pub proof fn lemma_williams_r_reset_replays(
    window: nat,
    before: Seq<(Fp, Fp, Fp)>,
    replay: Seq<(Fp, Fp, Fp)>,
)
    ensures
        ({
            let new = WilliamsRState::init(window);
            let s = run(williams_r_unit(), new, before).0;
            run(williams_r_unit(), WilliamsRState::init(s.window), replay)
                == run(williams_r_unit(), new, replay)
        }),
{
    lemma_reset_replays(
        williams_r_unit(),
        |s: WilliamsRState| WilliamsRState::init(s.window),
        WilliamsRState::init(window),
        before,
        replay,
    );
}

// ---------------------------------------------------------------------------
// Rate of change
// ---------------------------------------------------------------------------

impl SamplesState {
    /// Rate of change: undefined until `window` samples have arrived; then
    /// the change from the oldest sample held, in percent of it, and zero
    /// where that sample is zero.
    pub open spec fn roc_step(self, value: Fp) -> (SamplesState, Fp) {
        let next = self.pushed(value);
        let out = if next.buffer.len() < self.window {
            Fp(NAN)
        } else {
            percent_change(next.buffer[0], value, Fp(ZERO))
        };
        (next, out)
    }

    /// Momentum: undefined until `window` samples have arrived; then the
    /// sample less the oldest one held.
    pub open spec fn momentum_step(self, value: Fp) -> (SamplesState, Fp) {
        let next = self.pushed(value);
        let out = if next.buffer.len() < self.window {
            Fp(NAN)
        } else {
            value.sub_spec(next.buffer[0])
        };
        (next, out)
    }
}

/// Streaming rate of change.
pub struct ROCStreaming {
    window: usize,
    buffer: Window,
}

impl View for ROCStreaming {
    type V = SamplesState;

    closed spec fn view(&self) -> SamplesState {
        SamplesState { window: self.window as nat, buffer: self.buffer@ }
    }
}

impl ROCStreaming {
    /// What the unit keeps true of its own fields between calls.
    pub closed spec fn wf(&self) -> bool {
        &&& self.window >= 1
        &&& self.buffer.wf()
        &&& self.buffer.capacity() == self.window
    }

    pub fn new(window: usize) -> (r: Self)
        requires
            window >= 1,
        ensures
            r.wf(),
            r@ == SamplesState::init(window as nat),
    {
        ROCStreaming { window, buffer: Window::new(window) }
    }

    pub fn update(&mut self, value: Fp) -> (r: Fp)
        requires
            old(self).wf(),
        ensures
            final(self).wf(),
            final(self)@.valid(),
            (final(self)@, r) == old(self)@.roc_step(value),
    {
        self.buffer.push(value);
        if self.buffer.len() < self.window {
            Fp(NAN)
        } else {
            percent_change_of(self.buffer.get(0), value, Fp(ZERO))
        }
    }

    /// Returns the unit to the state it was made in.
    pub fn reset(&mut self)
        requires
            old(self).wf(),
        ensures
            final(self).wf(),
            final(self)@ == SamplesState::init(old(self)@.window),
    {
        self.buffer.clear();
    }
}

/// The rate of change as a step from state and input to state and output.
pub open spec fn roc_unit() -> spec_fn(SamplesState, Fp) -> (SamplesState, Fp) {
    |s: SamplesState, x: Fp| s.roc_step(x)
}

/// Warm-up: a new rate of change gives nothing before its `window`-th sample.
pub proof fn lemma_roc_warm_up(window: nat, inputs: Seq<Fp>, k: int)
    requires
        0 <= k < inputs.len(),
        k + 1 < window,
    ensures
        run(roc_unit(), SamplesState::init(window), inputs).1[k] == Fp(NAN),
{
    lemma_quiet_before(
        roc_unit(),
        |s: SamplesState| s.window == window,
        |s: SamplesState| s.buffer.len(),
        |o: Fp| o == Fp(NAN),
        window,
        SamplesState::init(window),
        inputs,
        k,
    );
}

/// Reset idempotence: a unit that has seen `before`, is reset, and then
/// sees `replay` does what a new one does on `replay`.
pub proof fn lemma_roc_reset_replays(window: nat, before: Seq<Fp>, replay: Seq<Fp>)
    ensures
        ({
            let new = SamplesState::init(window);
            let s = run(roc_unit(), new, before).0;
            run(roc_unit(), SamplesState::init(s.window), replay) == run(roc_unit(), new, replay)
        }),
{
    lemma_reset_replays(
        roc_unit(),
        |s: SamplesState| SamplesState::init(s.window),
        SamplesState::init(window),
        before,
        replay,
    );
}

// ---------------------------------------------------------------------------
// Percentage price oscillator, percentage volume oscillator
// ---------------------------------------------------------------------------

/// State of a percentage oscillator: two averages of the input and the
/// average of the oscillator line.
pub struct PpoState {
    pub fast: EmaState,
    pub slow: EmaState,
    pub signal: EmaState,
}

impl PpoState {
    /// The state of a new unit.
    pub open spec fn init(fast: nat, slow: nat, signal: nat) -> PpoState {
        PpoState {
            fast: EmaState::init(fast),
            slow: EmaState::init(slow),
            signal: EmaState::init(signal),
        }
    }

    /// The line is the fast average less the slow one, in percent of the slow
    /// one; the signal is the average of the line, the histogram their
    /// difference. All three are undefined, and the signal is not fed, while
    /// an average is undefined or the slow one is zero.
    pub open spec fn step(self, value: Fp) -> (PpoState, (Fp, Fp, Fp)) {
        let (fast, f) = self.fast.step(value);
        let (slow, s) = self.slow.step(value);
        if f.nan() || s.nan() || s.eq_spec(Fp(ZERO)) {
            (PpoState { fast, slow, signal: self.signal }, (Fp(NAN), Fp(NAN), Fp(NAN)))
        } else {
            let line = f.sub_spec(s).div_spec(s).mul_spec(Fp(HUNDRED));
            let (signal, sig) = self.signal.step(line);
            let histogram = if sig.nan() {
                Fp(NAN)
            } else {
                line.sub_spec(sig)
            };
            (PpoState { fast, slow, signal }, (line, sig, histogram))
        }
    }
}

/// Streaming percentage price oscillator.
pub struct PPOStreaming {
    fast_ema: EMAStreaming,
    slow_ema: EMAStreaming,
    signal_ema: EMAStreaming,
}

impl View for PPOStreaming {
    type V = PpoState;

    closed spec fn view(&self) -> PpoState {
        PpoState { fast: self.fast_ema@, slow: self.slow_ema@, signal: self.signal_ema@ }
    }
}

impl PPOStreaming {
    /// What the unit keeps true of its own fields between calls.
    pub closed spec fn wf(&self) -> bool {
        self.fast_ema.wf() && self.slow_ema.wf() && self.signal_ema.wf()
    }

    pub fn new(fast_period: usize, slow_period: usize, signal_period: usize) -> (r: Self)
        requires
            fast_period >= 1,
            slow_period >= 1,
            signal_period >= 1,
        ensures
            r.wf(),
            r@ == PpoState::init(fast_period as nat, slow_period as nat, signal_period as nat),
    {
        PPOStreaming {
            fast_ema: EMAStreaming::new(fast_period),
            slow_ema: EMAStreaming::new(slow_period),
            signal_ema: EMAStreaming::new(signal_period),
        }
    }

    /// Returns the line, the signal and the histogram.
    pub fn update(&mut self, value: Fp) -> (r: (Fp, Fp, Fp))
        requires
            old(self).wf(),
        ensures
            final(self).wf(),
            (final(self)@, r) == old(self)@.step(value),
    {
        let fast = self.fast_ema.update(value);
        let slow = self.slow_ema.update(value);
        if fast.is_nan() || slow.is_nan() || slow.eq(Fp(ZERO)) {
            return (Fp(NAN), Fp(NAN), Fp(NAN));
        }
        let ppo_line = fast.sub(slow).div(slow).mul(Fp(HUNDRED));
        let signal_line = self.signal_ema.update(ppo_line);
        let histogram = if signal_line.is_nan() {
            Fp(NAN)
        } else {
            ppo_line.sub(signal_line)
        };
        (ppo_line, signal_line, histogram)
    }

    /// Returns the unit to the state it was made in.
    pub fn reset(&mut self)
        requires
            old(self).wf(),
        ensures
            final(self).wf(),
            final(self)@.fast.alpha == old(self)@.fast.alpha,
            final(self)@.slow.alpha == old(self)@.slow.alpha,
            final(self)@.signal.alpha == old(self)@.signal.alpha,
            final(self)@ == PpoState::init(
                old(self)@.fast.window,
                old(self)@.slow.window,
                old(self)@.signal.window,
            ),
    {
        self.fast_ema.reset();
        self.slow_ema.reset();
        self.signal_ema.reset();
    }
}

/// The percentage price oscillator as a step from state and input to state
/// and output.
pub open spec fn ppo_unit() -> spec_fn(PpoState, Fp) -> (PpoState, (Fp, Fp, Fp)) {
    |s: PpoState, x: Fp| s.step(x)
}

/// Reset idempotence: a unit that has seen `before`, is reset, and then
/// sees `replay` does what a new one does on `replay`.
pub proof fn lemma_ppo_reset_replays(
    fast: nat,
    slow: nat,
    signal: nat,
    before: Seq<Fp>,
    replay: Seq<Fp>,
)
    ensures
        ({
            let new = PpoState::init(fast, slow, signal);
            let s = run(ppo_unit(), new, before).0;
            run(ppo_unit(), PpoState::init(s.fast.window, s.slow.window, s.signal.window), replay)
                == run(ppo_unit(), new, replay)
        }),
{
    lemma_reset_replays(
        ppo_unit(),
        |s: PpoState| PpoState::init(s.fast.window, s.slow.window, s.signal.window),
        PpoState::init(fast, slow, signal),
        before,
        replay,
    );
}

/// State of the percentage volume oscillator: two averages of the volume
/// and the adjusted average of the oscillator line.
pub struct PvoState {
    pub fast: EmaState,
    pub slow: EmaState,
    pub signal: AdjustedEmaState,
}

impl PvoState {
    /// The state of a new unit.
    pub open spec fn init(fast: nat, slow: nat, signal: nat) -> PvoState {
        PvoState {
            fast: EmaState::init(fast),
            slow: EmaState::init(slow),
            signal: AdjustedEmaState::init(signal),
        }
    }

    /// The line is the fast average less the slow one, in percent of the slow
    /// one; the signal is the adjusted average of the line, the histogram
    /// their difference. All three are undefined, and the signal is not fed,
    /// while an average is undefined or the slow one is zero.
    pub open spec fn step(self, volume: Fp) -> (PvoState, (Fp, Fp, Fp)) {
        let (fast, f) = self.fast.step(volume);
        let (slow, s) = self.slow.step(volume);
        if f.nan() || s.nan() || s.eq_spec(Fp(ZERO)) {
            (PvoState { fast, slow, signal: self.signal }, (Fp(NAN), Fp(NAN), Fp(NAN)))
        } else {
            let line = f.sub_spec(s).div_spec(s).mul_spec(Fp(HUNDRED));
            let (signal, sig) = self.signal.step(line);
            let histogram = if sig.nan() {
                Fp(NAN)
            } else {
                line.sub_spec(sig)
            };
            (PvoState { fast, slow, signal }, (line, sig, histogram))
        }
    }
}

/// Streaming percentage volume oscillator. Its signal is the adjusted
/// exponential average of the line, as in the bulk form.
pub struct PVOStreaming {
    fast_ema: EMAStreaming,
    slow_ema: EMAStreaming,
    signal_ema: AdjustedEMAStreaming,
}

impl View for PVOStreaming {
    type V = PvoState;

    closed spec fn view(&self) -> PvoState {
        PvoState { fast: self.fast_ema@, slow: self.slow_ema@, signal: self.signal_ema@ }
    }
}

impl PVOStreaming {
    /// What the unit keeps true of its own fields between calls.
    pub closed spec fn wf(&self) -> bool {
        self.fast_ema.wf() && self.slow_ema.wf() && self.signal_ema.wf()
    }

    pub fn new(fast_period: usize, slow_period: usize, signal_period: usize) -> (r: Self)
        requires
            fast_period >= 1,
            slow_period >= 1,
            signal_period >= 1,
        ensures
            r.wf(),
            r@ == PvoState::init(fast_period as nat, slow_period as nat, signal_period as nat),
    {
        PVOStreaming {
            fast_ema: EMAStreaming::new(fast_period),
            slow_ema: EMAStreaming::new(slow_period),
            signal_ema: AdjustedEMAStreaming::new(signal_period),
        }
    }

    /// Returns the line, the signal and the histogram.
    pub fn update(&mut self, volume: Fp) -> (r: (Fp, Fp, Fp))
        requires
            old(self).wf(),
        ensures
            final(self).wf(),
            (final(self)@, r) == old(self)@.step(volume),
    {
        let fast = self.fast_ema.update(volume);
        let slow = self.slow_ema.update(volume);
        if fast.is_nan() || slow.is_nan() || slow.eq(Fp(ZERO)) {
            return (Fp(NAN), Fp(NAN), Fp(NAN));
        }
        let pvo_line = fast.sub(slow).div(slow).mul(Fp(HUNDRED));
        let signal_line = self.signal_ema.update(pvo_line);
        let histogram = if signal_line.is_nan() {
            Fp(NAN)
        } else {
            pvo_line.sub(signal_line)
        };
        (pvo_line, signal_line, histogram)
    }

    /// Returns the unit to the state it was made in.
    pub fn reset(&mut self)
        requires
            old(self).wf(),
        ensures
            final(self).wf(),
            final(self)@.fast.alpha == old(self)@.fast.alpha,
            final(self)@.slow.alpha == old(self)@.slow.alpha,
            final(self)@.signal.alpha == old(self)@.signal.alpha,
            final(self)@ == PvoState::init(
                old(self)@.fast.window,
                old(self)@.slow.window,
                old(self)@.signal.window,
            ),
    {
        self.fast_ema.reset();
        self.slow_ema.reset();
        self.signal_ema.reset();
    }
}

/// The percentage volume oscillator as a step from state and input to state
/// and output.
pub open spec fn pvo_unit() -> spec_fn(PvoState, Fp) -> (PvoState, (Fp, Fp, Fp)) {
    |s: PvoState, x: Fp| s.step(x)
}

/// Reset idempotence: a unit that has seen `before`, is reset, and then
/// sees `replay` does what a new one does on `replay`.
pub proof fn lemma_pvo_reset_replays(
    fast: nat,
    slow: nat,
    signal: nat,
    before: Seq<Fp>,
    replay: Seq<Fp>,
)
    ensures
        ({
            let new = PvoState::init(fast, slow, signal);
            let s = run(pvo_unit(), new, before).0;
            run(pvo_unit(), PvoState::init(s.fast.window, s.slow.window, s.signal.window), replay)
                == run(pvo_unit(), new, replay)
        }),
{
    lemma_reset_replays(
        pvo_unit(),
        |s: PvoState| PvoState::init(s.fast.window, s.slow.window, s.signal.window),
        PvoState::init(fast, slow, signal),
        before,
        replay,
    );
}

// ---------------------------------------------------------------------------
// Momentum
// ---------------------------------------------------------------------------

/// Streaming momentum.
pub struct MomentumStreaming {
    window: usize,
    buffer: Window,
}

impl View for MomentumStreaming {
    type V = SamplesState;

    closed spec fn view(&self) -> SamplesState {
        SamplesState { window: self.window as nat, buffer: self.buffer@ }
    }
}

impl MomentumStreaming {
    /// What the unit keeps true of its own fields between calls.
    pub closed spec fn wf(&self) -> bool {
        &&& self.window >= 1
        &&& self.buffer.wf()
        &&& self.buffer.capacity() == self.window
    }

    pub fn new(window: usize) -> (r: Self)
        requires
            window >= 1,
        ensures
            r.wf(),
            r@ == SamplesState::init(window as nat),
    {
        MomentumStreaming { window, buffer: Window::new(window) }
    }

    pub fn update(&mut self, value: Fp) -> (r: Fp)
        requires
            old(self).wf(),
        ensures
            final(self).wf(),
            final(self)@.valid(),
            (final(self)@, r) == old(self)@.momentum_step(value),
    {
        self.buffer.push(value);
        if self.buffer.len() < self.window {
            Fp(NAN)
        } else {
            value.sub(self.buffer.get(0))
        }
    }

    /// Returns the unit to the state it was made in.
    pub fn reset(&mut self)
        requires
            old(self).wf(),
        ensures
            final(self).wf(),
            final(self)@ == SamplesState::init(old(self)@.window),
    {
        self.buffer.clear();
    }
}

/// The momentum as a step from state and input to state and output.
pub open spec fn momentum_unit() -> spec_fn(SamplesState, Fp) -> (SamplesState, Fp) {
    |s: SamplesState, x: Fp| s.momentum_step(x)
}

/// Warm-up: a new momentum gives nothing before its `window`-th sample.
pub proof fn lemma_momentum_warm_up(window: nat, inputs: Seq<Fp>, k: int)
    requires
        0 <= k < inputs.len(),
        k + 1 < window,
    ensures
        run(momentum_unit(), SamplesState::init(window), inputs).1[k] == Fp(NAN),
{
    lemma_quiet_before(
        momentum_unit(),
        |s: SamplesState| s.window == window,
        |s: SamplesState| s.buffer.len(),
        |o: Fp| o == Fp(NAN),
        window,
        SamplesState::init(window),
        inputs,
        k,
    );
}

/// Reset idempotence: a unit that has seen `before`, is reset, and then
/// sees `replay` does what a new one does on `replay`.
pub proof fn lemma_momentum_reset_replays(window: nat, before: Seq<Fp>, replay: Seq<Fp>)
    ensures
        ({
            let new = SamplesState::init(window);
            let s = run(momentum_unit(), new, before).0;
            run(momentum_unit(), SamplesState::init(s.window), replay)
                == run(momentum_unit(), new, replay)
        }),
{
    lemma_reset_replays(
        momentum_unit(),
        |s: SamplesState| SamplesState::init(s.window),
        SamplesState::init(window),
        before,
        replay,
    );
}

// ---------------------------------------------------------------------------
// Ultimate oscillator
// ---------------------------------------------------------------------------

/// The buying pressure over the true range, each summed over the last
/// `period` bars of the two windows.
pub open spec fn pressure_ratio(bp: Seq<Fp>, tr: Seq<Fp>, period: nat) -> Fp {
    sum_range(bp, bp.len() - period, bp.len() as int).div_spec(
        sum_range(tr, tr.len() - period, tr.len() as int),
    )
}

/// The blend of three ratios with weights four, two and one, in percent.
pub open spec fn ultimate_blend(avg1: Fp, avg2: Fp, avg3: Fp) -> Fp {
    Fp(HUNDRED).mul_spec(Fp(FOUR).mul_spec(avg1).add_spec(Fp(TWO).mul_spec(avg2)).add_spec(avg3))
        .div_spec(Fp(SEVEN))
}

/// State of the ultimate oscillator: the last buying pressures and true
/// ranges, the previous close, and the number of bars seen.
pub struct UltimateOscillatorState {
    pub period1: nat,
    pub period2: nat,
    pub period3: nat,
    pub bp: Seq<Fp>,
    pub tr: Seq<Fp>,
    pub prev_close: Fp,
    pub count: nat,
}

impl UltimateOscillatorState {
    /// The state of a new unit.
    pub open spec fn init(period1: nat, period2: nat, period3: nat) -> UltimateOscillatorState {
        UltimateOscillatorState {
            period1,
            period2,
            period3,
            bp: Seq::empty(),
            tr: Seq::empty(),
            prev_close: Fp(NAN),
            count: 0,
        }
    }

    pub open spec fn valid(self) -> bool {
        &&& 1 <= self.period1 <= self.period3
        &&& 1 <= self.period2 <= self.period3
        &&& self.bp.len() <= self.period3
        &&& self.tr.len() == self.bp.len()
    }

    /// Buying pressure of a bar: the close less the lower of the low and the
    /// previous close; without a previous close, the close less the low.
    pub open spec fn pressure(self, low: Fp, close: Fp) -> Fp {
        if !self.prev_close.nan() {
            close.sub_spec(low.min_spec(self.prev_close))
        } else {
            close.sub_spec(low)
        }
    }

    /// True range of a bar; without a previous close, the bar's height.
    pub open spec fn range(self, high: Fp, low: Fp) -> Fp {
        if !self.prev_close.nan() {
            true_range_after(high, low, self.prev_close)
        } else {
            high.sub_spec(low)
        }
    }

    /// Undefined until the longest period is full; then the blend of the
    /// three periods' ratios.
    pub open spec fn step(self, high: Fp, low: Fp, close: Fp) -> (UltimateOscillatorState, Fp) {
        let bp = slide(self.bp, self.pressure(low, close), self.period3);
        let tr = slide(self.tr, self.range(high, low), self.period3);
        let out = if bp.len() < self.period3 {
            Fp(NAN)
        } else {
            ultimate_blend(
                pressure_ratio(bp, tr, self.period1),
                pressure_ratio(bp, tr, self.period2),
                pressure_ratio(bp, tr, bp.len()),
            )
        };
        (
            UltimateOscillatorState {
                bp,
                tr,
                prev_close: close,
                count: bump(self.count),
                ..self
            },
            out,
        )
    }
}

/// Streaming ultimate oscillator.
pub struct UltimateOscillatorStreaming {
    period1: usize,
    period2: usize,
    period3: usize,
    bp_buffer: Window,
    tr_buffer: Window,
    prev_close: Fp,
    update_count: usize,
}

impl View for UltimateOscillatorStreaming {
    type V = UltimateOscillatorState;

    closed spec fn view(&self) -> UltimateOscillatorState {
        UltimateOscillatorState {
            period1: self.period1 as nat,
            period2: self.period2 as nat,
            period3: self.period3 as nat,
            bp: self.bp_buffer@,
            tr: self.tr_buffer@,
            prev_close: self.prev_close,
            count: self.update_count as nat,
        }
    }
}

impl UltimateOscillatorStreaming {
    /// What the unit keeps true of its own fields between calls.
    pub closed spec fn wf(&self) -> bool {
        &&& 1 <= self.period1 <= self.period3
        &&& 1 <= self.period2 <= self.period3
        &&& self.bp_buffer.wf()
        &&& self.tr_buffer.wf()
        &&& self.bp_buffer.capacity() == self.period3
        &&& self.tr_buffer.capacity() == self.period3
        &&& self.tr_buffer@.len() == self.bp_buffer@.len()
    }

    /// The three periods run from shortest to longest.
    pub fn new(period1: usize, period2: usize, period3: usize) -> (r: Self)
        requires
            1 <= period1 <= period3,
            1 <= period2 <= period3,
        ensures
            r.wf(),
            r@ == UltimateOscillatorState::init(period1 as nat, period2 as nat, period3 as nat),
    {
        UltimateOscillatorStreaming {
            period1,
            period2,
            period3,
            bp_buffer: Window::new(period3),
            tr_buffer: Window::new(period3),
            prev_close: Fp(NAN),
            update_count: 0,
        }
    }

    pub fn update(&mut self, high: Fp, low: Fp, close: Fp) -> (r: Fp)
        requires
            old(self).wf(),
        ensures
            final(self).wf(),
            final(self)@.valid(),
            (final(self)@, r) == old(self)@.step(high, low, close),
    {
        self.update_count = bumped(self.update_count);
        let (bp, tr) = if !self.prev_close.is_nan() {
            (close.sub(low.min(self.prev_close)), true_range_step(high, low, self.prev_close))
        } else {
            (close.sub(low), high.sub(low))
        };
        self.bp_buffer.push(bp);
        self.tr_buffer.push(tr);
        self.prev_close = close;
        if self.bp_buffer.len() < self.period3 {
            Fp(NAN)
        } else {
            let n = self.bp_buffer.len();
            let avg1 = sum_of(&self.bp_buffer, n - self.period1, n).div(
                sum_of(&self.tr_buffer, n - self.period1, n),
            );
            let avg2 = sum_of(&self.bp_buffer, n - self.period2, n).div(
                sum_of(&self.tr_buffer, n - self.period2, n),
            );
            let avg3 = sum_of(&self.bp_buffer, 0, n).div(sum_of(&self.tr_buffer, 0, n));
            Fp(HUNDRED).mul(Fp(FOUR).mul(avg1).add(Fp(TWO).mul(avg2)).add(avg3)).div(Fp(SEVEN))
        }
    }

    /// Returns the unit to the state it was made in.
    pub fn reset(&mut self)
        requires
            old(self).wf(),
        ensures
            final(self).wf(),
            final(self)@ == UltimateOscillatorState::init(
                old(self)@.period1,
                old(self)@.period2,
                old(self)@.period3,
            ),
    {
        self.bp_buffer.clear();
        self.tr_buffer.clear();
        self.prev_close = Fp(NAN);
        self.update_count = 0;
    }
}

/// The ultimate oscillator as a step from state and input to state and output.
pub open spec fn ultimate_oscillator_unit() -> spec_fn(UltimateOscillatorState, (Fp, Fp, Fp)) -> (
    UltimateOscillatorState,
    Fp,
) {
    |s: UltimateOscillatorState, x: (Fp, Fp, Fp)| s.step(x.0, x.1, x.2)
}

/// Warm-up: a new ultimate oscillator gives nothing before its `period3`-th bar.
pub proof fn lemma_ultimate_oscillator_warm_up(
    period1: nat,
    period2: nat,
    period3: nat,
    inputs: Seq<(Fp, Fp, Fp)>,
    k: int,
)
    requires
        0 <= k < inputs.len(),
        k + 1 < period3,
    ensures
        ({
            let new = UltimateOscillatorState::init(period1, period2, period3);
            let o = run(ultimate_oscillator_unit(), new, inputs).1[k];
            o == Fp(NAN)
        }),
{
    lemma_quiet_before(
        ultimate_oscillator_unit(),
        |s: UltimateOscillatorState| s.period3 == period3,
        |s: UltimateOscillatorState| s.bp.len(),
        |o: Fp| o == Fp(NAN),
        period3,
        UltimateOscillatorState::init(period1, period2, period3),
        inputs,
        k,
    );
}

/// Reset idempotence: a unit that has seen `before`, is reset, and then
/// sees `replay` does what a new one does on `replay`.
pub proof fn lemma_ultimate_oscillator_reset_replays(
    period1: nat,
    period2: nat,
    period3: nat,
    before: Seq<(Fp, Fp, Fp)>,
    replay: Seq<(Fp, Fp, Fp)>,
)
    ensures
        ({
            let new = UltimateOscillatorState::init(period1, period2, period3);
            let s = run(ultimate_oscillator_unit(), new, before).0;
            run(
                ultimate_oscillator_unit(),
                UltimateOscillatorState::init(
                    s.period1,
                    s.period2,
                    s.period3,
                ),
                replay,
            ) == run(ultimate_oscillator_unit(), new, replay)
        }),
{
    lemma_reset_replays(
        ultimate_oscillator_unit(),
        |s: UltimateOscillatorState| UltimateOscillatorState::init(s.period1, s.period2, s.period3),
        UltimateOscillatorState::init(period1, period2, period3),
        before,
        replay,
    );
}

// ---------------------------------------------------------------------------
// Stochastic RSI
// ---------------------------------------------------------------------------

/// State of the stochastic RSI: the index, its last values, and the two
/// averages that smooth its place in their range.
pub struct StochasticRsiState {
    pub rsi: RsiState,
    pub rsis: Seq<Fp>,
    pub k: SmaState,
    pub d: NanAwareSmaState,
    pub stoch_period: nat,
}

impl StochasticRsiState {
    /// The state of a new unit.
    pub open spec fn init(
        rsi_period: nat,
        stoch_period: nat,
        k_period: nat,
        d_period: nat,
    ) -> StochasticRsiState {
        StochasticRsiState {
            rsi: RsiState::init(rsi_period),
            rsis: Seq::empty(),
            k: SmaState::init(k_period),
            d: NanAwareSmaState::init(d_period),
            stoch_period,
        }
    }

    pub open spec fn valid(self) -> bool {
        &&& self.stoch_period >= 1
        &&& self.rsis.len() <= self.stoch_period
        &&& self.k.valid()
        &&& self.d.valid()
    }

    /// All three values are undefined while the index is, and until
    /// `stoch_period` of its values are held. Then the first is the place of
    /// the index in the range of those values, the second its moving
    /// average, and the third the moving average of the second, which passes
    /// over the second's undefined start.
    pub open spec fn step(self, value: Fp) -> (StochasticRsiState, (Fp, Fp, Fp)) {
        let (rsi, r) = self.rsi.step(value);
        if r.nan() {
            (StochasticRsiState { rsi, ..self }, (Fp(NAN), Fp(NAN), Fp(NAN)))
        } else {
            let rsis = slide(self.rsis, r, self.stoch_period);
            if rsis.len() < self.stoch_period {
                (StochasticRsiState { rsi, rsis, ..self }, (Fp(NAN), Fp(NAN), Fp(NAN)))
            } else {
                let n = rsis.len() as int;
                let stoch = share_of_range(r, min_range(rsis, 0, n), max_range(rsis, 0, n));
                let (k, kv) = self.k.step(stoch);
                let (d, dv) = self.d.step(kv);
                (StochasticRsiState { rsi, rsis, k, d, ..self }, (stoch, kv, dv))
            }
        }
    }
}

/// Streaming stochastic RSI.
pub struct StochasticRSIStreaming {
    rsi_stream: RSIStreaming,
    rsi_buffer: Window,
    k_sma: SMAStreaming,
    d_sma: NanAwareSMAStreaming,
    stoch_period: usize,
}

impl View for StochasticRSIStreaming {
    type V = StochasticRsiState;

    closed spec fn view(&self) -> StochasticRsiState {
        StochasticRsiState {
            rsi: self.rsi_stream@,
            rsis: self.rsi_buffer@,
            k: self.k_sma@,
            d: self.d_sma@,
            stoch_period: self.stoch_period as nat,
        }
    }
}

impl StochasticRSIStreaming {
    /// What the unit keeps true of its own fields between calls.
    pub closed spec fn wf(&self) -> bool {
        &&& self.stoch_period >= 1
        &&& self.rsi_stream.wf()
        &&& self.rsi_buffer.wf()
        &&& self.rsi_buffer.capacity() == self.stoch_period
        &&& self.k_sma.wf()
        &&& self.d_sma.wf()
        &&& self.k_sma@.valid()
        &&& self.d_sma@.valid()
    }

    pub fn new(rsi_period: usize, stoch_period: usize, k_period: usize, d_period: usize) -> (r:
        Self)
        requires
            rsi_period >= 1,
            stoch_period >= 1,
            k_period >= 1,
            d_period >= 1,
        ensures
            r.wf(),
            r@ == StochasticRsiState::init(
                rsi_period as nat,
                stoch_period as nat,
                k_period as nat,
                d_period as nat,
            ),
    {
        StochasticRSIStreaming {
            rsi_stream: RSIStreaming::new(rsi_period),
            rsi_buffer: Window::new(stoch_period),
            k_sma: SMAStreaming::new(k_period),
            d_sma: NanAwareSMAStreaming::new(d_period),
            stoch_period,
        }
    }

    /// Returns the stochastic RSI, its %K and its %D.
    pub fn update(&mut self, value: Fp) -> (r: (Fp, Fp, Fp))
        requires
            old(self).wf(),
        ensures
            final(self).wf(),
            final(self)@.valid(),
            (final(self)@, r) == old(self)@.step(value),
    {
        let rsi_value = self.rsi_stream.update(value);
        if rsi_value.is_nan() {
            return (Fp(NAN), Fp(NAN), Fp(NAN));
        }
        self.rsi_buffer.push(rsi_value);
        if self.rsi_buffer.len() < self.stoch_period {
            return (Fp(NAN), Fp(NAN), Fp(NAN));
        }
        let n = self.rsi_buffer.len();
        let low_rsi = min_of(&self.rsi_buffer, 0, n);
        let high_rsi = max_of(&self.rsi_buffer, 0, n);
        let stoch_rsi = if high_rsi.gt(low_rsi) {
            rsi_value.sub(low_rsi).div(high_rsi.sub(low_rsi))
        } else {
            Fp(ZERO)
        };
        let k_value = self.k_sma.update(stoch_rsi);
        let d_value = self.d_sma.update(k_value);
        (stoch_rsi, k_value, d_value)
    }

    /// Returns the unit to the state it was made in.
    pub fn reset(&mut self)
        requires
            old(self).wf(),
        ensures
            final(self).wf(),
            final(self)@.rsi.alpha == old(self)@.rsi.alpha,
            final(self)@ == StochasticRsiState::init(
                old(self)@.rsi.window,
                old(self)@.stoch_period,
                old(self)@.k.window,
                old(self)@.d.window,
            ),
    {
        self.rsi_stream.reset();
        self.rsi_buffer.clear();
        self.k_sma.reset();
        self.d_sma.reset();
    }
}

/// The stochastic RSI as a step from state and input to state and output.
pub open spec fn stochastic_rsi_unit() -> spec_fn(StochasticRsiState, Fp) -> (
    StochasticRsiState,
    (Fp, Fp, Fp),
) {
    |s: StochasticRsiState, x: Fp| s.step(x)
}

/// What holds of a stochastic RSI between steps: the values of the index
/// that it holds are at most as many as the samples seen from the
/// `rsi_period`-th on.
pub open spec fn stochastic_rsi_filling(
    s: StochasticRsiState,
    rsi_period: nat,
    stoch_period: nat,
) -> bool {
    &&& s.rsi.window == rsi_period
    &&& s.stoch_period == stoch_period
    &&& s.rsis.len() <= stoch_period
    &&& (s.rsis.len() == 0 || s.rsis.len() + rsi_period <= s.rsi.count + 1 || s.rsi.count
        >= usize::MAX)
}

/// Warm-up: a new stochastic RSI gives nothing before the sample that
/// completes both lookbacks, the `rsi_period` of the index and the
/// `stoch_period` values of the index after it.
pub proof fn lemma_stochastic_rsi_warm_up(
    rsi_period: nat,
    stoch_period: nat,
    k_period: nat,
    d_period: nat,
    inputs: Seq<Fp>,
    k: int,
)
    requires
        rsi_period >= 1,
        stoch_period >= 1,
        rsi_period + stoch_period - 1 <= usize::MAX,
        0 <= k < inputs.len(),
        k + 1 < rsi_period + stoch_period - 1,
    ensures
        ({
            let new = StochasticRsiState::init(rsi_period, stoch_period, k_period, d_period);
            let o = run(stochastic_rsi_unit(), new, inputs).1[k];
            o.0 == Fp(NAN) && o.1 == Fp(NAN) && o.2 == Fp(NAN)
        }),
{
    lemma_quiet_before(
        stochastic_rsi_unit(),
        |s: StochasticRsiState| stochastic_rsi_filling(s, rsi_period, stoch_period),
        |s: StochasticRsiState| s.rsi.count,
        |o: (Fp, Fp, Fp)| o.0 == Fp(NAN) && o.1 == Fp(NAN) && o.2 == Fp(NAN),
        (rsi_period + stoch_period - 1) as nat,
        StochasticRsiState::init(rsi_period, stoch_period, k_period, d_period),
        inputs,
        k,
    );
}

/// Reset idempotence: a unit that has seen `before`, is reset, and then
/// sees `replay` does what a new one does on `replay`.
pub proof fn lemma_stochastic_rsi_reset_replays(
    rsi_period: nat,
    stoch_period: nat,
    k_period: nat,
    d_period: nat,
    before: Seq<Fp>,
    replay: Seq<Fp>,
)
    ensures
        ({
            let new = StochasticRsiState::init(rsi_period, stoch_period, k_period, d_period);
            let s = run(stochastic_rsi_unit(), new, before).0;
            run(
                stochastic_rsi_unit(),
                StochasticRsiState::init(
                    s.rsi.window,
                    s.stoch_period,
                    s.k.window,
                    s.d.window,
                ),
                replay,
            ) == run(stochastic_rsi_unit(), new, replay)
        }),
{
    lemma_reset_replays(
        stochastic_rsi_unit(),
        |s: StochasticRsiState|
            StochasticRsiState::init(
                s.rsi.window,
                s.stoch_period,
                s.k.window,
                s.d.window,
            ),
        StochasticRsiState::init(rsi_period, stoch_period, k_period, d_period),
        before,
        replay,
    );
}

// ---------------------------------------------------------------------------
// True strength index
// ---------------------------------------------------------------------------

/// State of the true strength index: two chained averages of the price
/// change, two of its absolute value, the previous close, and the number of
/// samples seen.
pub struct TsiState {
    pub momentum1: EmaState,
    pub momentum2: EmaState,
    pub abs1: EmaState,
    pub abs2: EmaState,
    pub prev_close: Fp,
    pub count: nat,
}

impl TsiState {
    /// The state of a new unit.
    pub open spec fn init(first_smooth: nat, second_smooth: nat) -> TsiState {
        TsiState {
            momentum1: EmaState::init(first_smooth),
            momentum2: EmaState::init(second_smooth),
            abs1: EmaState::init(first_smooth),
            abs2: EmaState::init(second_smooth),
            prev_close: Fp(NAN),
            count: 0,
        }
    }

    /// The first sample only seeds the previous close. After it, the index is
    /// a hundred times the double-smoothed change over the double-smoothed
    /// absolute change; undefined where either is undefined or the latter is
    /// zero.
    pub open spec fn step(self, value: Fp) -> (TsiState, Fp) {
        let count = bump(self.count);
        if count == 1 {
            (TsiState { prev_close: value, count, ..self }, Fp(NAN))
        } else {
            let change = value.sub_spec(self.prev_close);
            let (momentum1, m1) = self.momentum1.step(change);
            let (momentum2, m2) = self.momentum2.step(m1);
            let (abs1, a1) = self.abs1.step(change.abs_spec());
            let (abs2, a2) = self.abs2.step(a1);
            let out = if !m2.nan() && !a2.nan() && a2.ne_spec(Fp(ZERO)) {
                Fp(HUNDRED).mul_spec(m2.div_spec(a2))
            } else {
                Fp(NAN)
            };
            (TsiState { momentum1, momentum2, abs1, abs2, prev_close: value, count }, out)
        }
    }
}

/// Streaming true strength index.
pub struct TSIStreaming {
    momentum_ema1: EMAStreaming,
    momentum_ema2: EMAStreaming,
    abs_momentum_ema1: EMAStreaming,
    abs_momentum_ema2: EMAStreaming,
    prev_close: Fp,
    update_count: usize,
}

impl View for TSIStreaming {
    type V = TsiState;

    closed spec fn view(&self) -> TsiState {
        TsiState {
            momentum1: self.momentum_ema1@,
            momentum2: self.momentum_ema2@,
            abs1: self.abs_momentum_ema1@,
            abs2: self.abs_momentum_ema2@,
            prev_close: self.prev_close,
            count: self.update_count as nat,
        }
    }
}

impl TSIStreaming {
    /// What the unit keeps true of its own fields between calls.
    pub closed spec fn wf(&self) -> bool {
        &&& self.momentum_ema1.wf()
        &&& self.momentum_ema2.wf()
        &&& self.abs_momentum_ema1.wf()
        &&& self.abs_momentum_ema2.wf()
        &&& self.abs_momentum_ema1@.window == self.momentum_ema1@.window
        &&& self.abs_momentum_ema2@.window == self.momentum_ema2@.window
    }

    pub fn new(first_smooth: usize, second_smooth: usize) -> (r: Self)
        requires
            first_smooth >= 1,
            second_smooth >= 1,
        ensures
            r.wf(),
            r@ == TsiState::init(first_smooth as nat, second_smooth as nat),
    {
        TSIStreaming {
            momentum_ema1: EMAStreaming::new(first_smooth),
            momentum_ema2: EMAStreaming::new(second_smooth),
            abs_momentum_ema1: EMAStreaming::new(first_smooth),
            abs_momentum_ema2: EMAStreaming::new(second_smooth),
            prev_close: Fp(NAN),
            update_count: 0,
        }
    }

    pub fn update(&mut self, value: Fp) -> (r: Fp)
        requires
            old(self).wf(),
        ensures
            final(self).wf(),
            (final(self)@, r) == old(self)@.step(value),
    {
        self.update_count = bumped(self.update_count);
        if self.update_count == 1 {
            self.prev_close = value;
            return Fp(NAN);
        }
        let momentum = value.sub(self.prev_close);
        let abs_momentum = momentum.abs();
        let smooth1_momentum = self.momentum_ema1.update(momentum);
        let smooth2_momentum = self.momentum_ema2.update(smooth1_momentum);
        let smooth1_abs = self.abs_momentum_ema1.update(abs_momentum);
        let smooth2_abs = self.abs_momentum_ema2.update(smooth1_abs);
        self.prev_close = value;
        if !smooth2_momentum.is_nan() && !smooth2_abs.is_nan() && smooth2_abs.ne(Fp(ZERO)) {
            Fp(HUNDRED).mul(smooth2_momentum.div(smooth2_abs))
        } else {
            Fp(NAN)
        }
    }

    /// Returns the unit to the state it was made in.
    pub fn reset(&mut self)
        requires
            old(self).wf(),
        ensures
            final(self).wf(),
            final(self)@.momentum1.alpha == old(self)@.momentum1.alpha,
            final(self)@.momentum2.alpha == old(self)@.momentum2.alpha,
            final(self)@.abs1.alpha == old(self)@.abs1.alpha,
            final(self)@.abs2.alpha == old(self)@.abs2.alpha,
            final(self)@ == TsiState::init(
                old(self)@.momentum1.window,
                old(self)@.momentum2.window,
            ),
    {
        self.momentum_ema1.reset();
        self.momentum_ema2.reset();
        self.abs_momentum_ema1.reset();
        self.abs_momentum_ema2.reset();
        self.prev_close = Fp(NAN);
        self.update_count = 0;
    }
}

/// The true strength index as a step from state and input to state and output.
pub open spec fn tsi_unit() -> spec_fn(TsiState, Fp) -> (TsiState, Fp) {
    |s: TsiState, x: Fp| s.step(x)
}

/// Reset idempotence: a unit that has seen `before`, is reset, and then
/// sees `replay` does what a new one does on `replay`.
pub proof fn lemma_tsi_reset_replays(
    first_smooth: nat,
    second_smooth: nat,
    before: Seq<Fp>,
    replay: Seq<Fp>,
)
    ensures
        ({
            let new = TsiState::init(first_smooth, second_smooth);
            let s = run(tsi_unit(), new, before).0;
            run(tsi_unit(), TsiState::init(s.momentum1.window, s.momentum2.window), replay)
                == run(tsi_unit(), new, replay)
        }),
{
    lemma_reset_replays(
        tsi_unit(),
        |s: TsiState| TsiState::init(s.momentum1.window, s.momentum2.window),
        TsiState::init(first_smooth, second_smooth),
        before,
        replay,
    );
}

// ---------------------------------------------------------------------------
// Awesome oscillator
// ---------------------------------------------------------------------------

/// State of the awesome oscillator: a fast and a slow average of the bar's
/// midpoint.
pub struct AwesomeOscillatorState {
    pub fast: SmaState,
    pub slow: SmaState,
}

impl AwesomeOscillatorState {
    /// The state of a new unit.
    pub open spec fn init(fast_period: nat, slow_period: nat) -> AwesomeOscillatorState {
        AwesomeOscillatorState {
            fast: SmaState::init(fast_period),
            slow: SmaState::init(slow_period),
        }
    }

    pub open spec fn valid(self) -> bool {
        self.fast.valid() && self.slow.valid()
    }

    /// The fast average of the midpoint less the slow one; undefined while
    /// either is.
    pub open spec fn step(self, high: Fp, low: Fp) -> (AwesomeOscillatorState, Fp) {
        let midpoint = high.add_spec(low).div_spec(Fp(TWO));
        let (fast, f) = self.fast.step(midpoint);
        let (slow, s) = self.slow.step(midpoint);
        let out = if f.nan() || s.nan() {
            Fp(NAN)
        } else {
            f.sub_spec(s)
        };
        (AwesomeOscillatorState { fast, slow }, out)
    }
}

/// Streaming awesome oscillator.
pub struct AwesomeOscillatorStreaming {
    fast_sma: SMAStreaming,
    slow_sma: SMAStreaming,
}

impl View for AwesomeOscillatorStreaming {
    type V = AwesomeOscillatorState;

    closed spec fn view(&self) -> AwesomeOscillatorState {
        AwesomeOscillatorState { fast: self.fast_sma@, slow: self.slow_sma@ }
    }
}

impl AwesomeOscillatorStreaming {
    /// What the unit keeps true of its own fields between calls.
    pub closed spec fn wf(&self) -> bool {
        self.fast_sma.wf() && self.slow_sma.wf()
    }

    pub fn new(fast_period: usize, slow_period: usize) -> (r: Self)
        requires
            fast_period >= 1,
            slow_period >= 1,
        ensures
            r.wf(),
            r@ == AwesomeOscillatorState::init(fast_period as nat, slow_period as nat),
    {
        AwesomeOscillatorStreaming {
            fast_sma: SMAStreaming::new(fast_period),
            slow_sma: SMAStreaming::new(slow_period),
        }
    }

    pub fn update(&mut self, high: Fp, low: Fp) -> (r: Fp)
        requires
            old(self).wf(),
        ensures
            final(self).wf(),
            final(self)@.valid(),
            (final(self)@, r) == old(self)@.step(high, low),
    {
        let midpoint = high.add(low).div(Fp(TWO));
        let fast = self.fast_sma.update(midpoint);
        let slow = self.slow_sma.update(midpoint);
        if fast.is_nan() || slow.is_nan() {
            Fp(NAN)
        } else {
            fast.sub(slow)
        }
    }

    /// Returns the unit to the state it was made in.
    pub fn reset(&mut self)
        requires
            old(self).wf(),
        ensures
            final(self).wf(),
            final(self)@ == AwesomeOscillatorState::init(
                old(self)@.fast.window,
                old(self)@.slow.window,
            ),
    {
        self.fast_sma.reset();
        self.slow_sma.reset();
    }
}

/// The awesome oscillator as a step from state and input to state and output.
pub open spec fn awesome_oscillator_unit() -> spec_fn(AwesomeOscillatorState, (Fp, Fp)) -> (
    AwesomeOscillatorState,
    Fp,
) {
    |s: AwesomeOscillatorState, x: (Fp, Fp)| s.step(x.0, x.1)
}

/// Warm-up: a new awesome oscillator gives nothing before its `slow_period`-th bar.
pub proof fn lemma_awesome_oscillator_warm_up(
    fast_period: nat,
    slow_period: nat,
    inputs: Seq<(Fp, Fp)>,
    k: int,
)
    requires
        0 <= k < inputs.len(),
        k + 1 < slow_period,
    ensures
        ({
            let new = AwesomeOscillatorState::init(fast_period, slow_period);
            let o = run(awesome_oscillator_unit(), new, inputs).1[k];
            o == Fp(NAN)
        }),
{
    lemma_quiet_before(
        awesome_oscillator_unit(),
        |s: AwesomeOscillatorState| s.slow.window == slow_period,
        |s: AwesomeOscillatorState| s.slow.buffer.len(),
        |o: Fp| o == Fp(NAN),
        slow_period,
        AwesomeOscillatorState::init(fast_period, slow_period),
        inputs,
        k,
    );
}

/// Reset idempotence: a unit that has seen `before`, is reset, and then
/// sees `replay` does what a new one does on `replay`.
pub proof fn lemma_awesome_oscillator_reset_replays(
    fast_period: nat,
    slow_period: nat,
    before: Seq<(Fp, Fp)>,
    replay: Seq<(Fp, Fp)>,
)
    ensures
        ({
            let new = AwesomeOscillatorState::init(fast_period, slow_period);
            let s = run(awesome_oscillator_unit(), new, before).0;
            run(
                awesome_oscillator_unit(),
                AwesomeOscillatorState::init(
                    s.fast.window,
                    s.slow.window,
                ),
                replay,
            ) == run(awesome_oscillator_unit(), new, replay)
        }),
{
    lemma_reset_replays(
        awesome_oscillator_unit(),
        |s: AwesomeOscillatorState| AwesomeOscillatorState::init(s.fast.window, s.slow.window),
        AwesomeOscillatorState::init(fast_period, slow_period),
        before,
        replay,
    );
}

// ---------------------------------------------------------------------------
// Kaufman's adaptive moving average
// ---------------------------------------------------------------------------

/// The efficiency ratio of a run of prices: the distance between its ends
/// over the length of the path through it; zero where the path has none.
pub open spec fn efficiency_ratio(prices: Seq<Fp>) -> Fp {
    let n = prices.len() as int;
    let direction = prices[n - 1].sub_spec(prices[0]).abs_spec();
    let volatility = path_length(prices, n);
    if volatility.ne_spec(Fp(ZERO)) {
        direction.div_spec(volatility)
    } else {
        Fp(ZERO)
    }
}

/// The smoothing constant for an efficiency ratio; undefined where the
/// ratio is.
pub open spec fn kama_constant(er: Fp, fast_sc: Fp, slow_sc: Fp) -> Fp {
    if er.nan() {
        Fp(NAN)
    } else {
        adaptive_constant(er, fast_sc, slow_sc)
    }
}

/// The average moved from `prev` towards `value` by the constant `sc`;
/// undefined where the constant is.
pub open spec fn kama_moved(prev: Fp, sc: Fp, value: Fp) -> Fp {
    if sc.nan() {
        Fp(NAN)
    } else {
        prev.add_spec(sc.mul_spec(value.sub_spec(prev)))
    }
}

/// State of the adaptive moving average: the last `window` prices and the
/// previous average.
pub struct KamaState {
    pub window: nat,
    pub fast_sc: Fp,
    pub slow_sc: Fp,
    pub prices: Seq<Fp>,
    pub prev_kama: Fp,
}

impl KamaState {
    /// The state of a new unit.
    pub open spec fn init(window: nat, fast_sc: Fp, slow_sc: Fp) -> KamaState {
        KamaState { window, fast_sc, slow_sc, prices: Seq::empty(), prev_kama: Fp(NAN) }
    }

    pub open spec fn valid(self) -> bool {
        self.prices.len() <= self.window
    }

    /// Undefined until `window` prices have arrived. The `window`-th price
    /// is the first average. Each later price moves the average towards
    /// itself by the adaptive constant, which is made from the efficiency
    /// ratio of the `window` prices held and the new one.
    pub open spec fn step(self, value: Fp) -> (KamaState, Fp) {
        let prices = slide(self.prices, value, self.window);
        if self.prices.len() + 1 < self.window {
            (KamaState { prices, ..self }, Fp(NAN))
        } else if self.prices.len() < self.window {
            (KamaState { prices, prev_kama: value, ..self }, value)
        } else {
            let er = efficiency_ratio(self.prices.push(value));
            let sc = kama_constant(er, self.fast_sc, self.slow_sc);
            let kama = kama_moved(self.prev_kama, sc, value);
            (KamaState { prices, prev_kama: kama, ..self }, kama)
        }
    }
}

/// Streaming adaptive moving average.
pub struct KAMAStreaming {
    window: usize,
    fast_sc: Fp,
    slow_sc: Fp,
    price_buffer: Window,
    prev_kama: Fp,
}

impl View for KAMAStreaming {
    type V = KamaState;

    closed spec fn view(&self) -> KamaState {
        KamaState {
            window: self.window as nat,
            fast_sc: self.fast_sc,
            slow_sc: self.slow_sc,
            prices: self.price_buffer@,
            prev_kama: self.prev_kama,
        }
    }
}

/// The path through the first `n` samples does not read the samples after
/// them.
pub proof fn lemma_path_length_push(s: Seq<Fp>, x: Fp, n: int)
    requires
        n <= s.len(),
    ensures
        path_length(s.push(x), n) == path_length(s, n),
    decreases n,
{
    if n > 1 {
        lemma_path_length_push(s, x, n - 1);
    }
}

impl KAMAStreaming {
    /// What the unit keeps true of its own fields between calls.
    pub closed spec fn wf(&self) -> bool {
        &&& self.window >= 1
        &&& self.price_buffer.wf()
        &&& self.price_buffer.capacity() == self.window
    }

    pub fn new(window: usize, fast_period: usize, slow_period: usize) -> (r: Self)
        requires
            window >= 1,
            fast_period >= 1,
            slow_period >= 1,
        ensures
            r.wf(),
            r@ == KamaState::init(
                window as nat,
                ema_alpha(fast_period as nat),
                ema_alpha(slow_period as nat),
            ),
    {
        KAMAStreaming {
            window,
            fast_sc: Fp(TWO).div(Fp::from_usize(fast_period).add(Fp(ONE))),
            slow_sc: Fp(TWO).div(Fp::from_usize(slow_period).add(Fp(ONE))),
            price_buffer: Window::new(window),
            prev_kama: Fp(NAN),
        }
    }

    pub fn update(&mut self, value: Fp) -> (r: Fp)
        requires
            old(self).wf(),
        ensures
            final(self).wf(),
            final(self)@.valid(),
            (final(self)@, r) == old(self)@.step(value),
    {
        let held = self.price_buffer.len();
        if held < self.window {
            self.price_buffer.push(value);
            if held + 1 < self.window {
                return Fp(NAN);
            }
            self.prev_kama = value;
            return value;
        }
        let direction = value.sub(self.price_buffer.get(0)).abs();
        let last_change = value.sub(self.price_buffer.get(held - 1)).abs();
        let volatility = path_length_of(&self.price_buffer).add(last_change);
        proof {
            lemma_path_length_push(self.price_buffer@, value, held as int);
        }
        let er = if volatility.ne(Fp(ZERO)) {
            direction.div(volatility)
        } else {
            Fp(ZERO)
        };
        self.price_buffer.push(value);
        let mut result = Fp(NAN);
        if !er.is_nan() {
            let sc = er.mul(self.fast_sc.sub(self.slow_sc)).add(self.slow_sc).sq();
            if !sc.is_nan() {
                result = self.prev_kama.add(sc.mul(value.sub(self.prev_kama)));
            }
        }
        self.prev_kama = result;
        result
    }

    /// Returns the unit to the state it was made in.
    pub fn reset(&mut self)
        requires
            old(self).wf(),
        ensures
            final(self).wf(),
            final(self)@ == KamaState::init(
                old(self)@.window,
                old(self)@.fast_sc,
                old(self)@.slow_sc,
            ),
    {
        self.price_buffer.clear();
        self.prev_kama = Fp(NAN);
    }
}

/// The adaptive moving average as a step from state and input to state and output.
pub open spec fn kama_unit() -> spec_fn(KamaState, Fp) -> (KamaState, Fp) {
    |s: KamaState, x: Fp| s.step(x)
}

/// Warm-up: a new adaptive moving average gives nothing before its
/// `window`-th sample.
pub proof fn lemma_kama_warm_up(window: nat, fast_sc: Fp, slow_sc: Fp, inputs: Seq<Fp>, k: int)
    requires
        0 <= k < inputs.len(),
        k + 1 < window,
    ensures
        run(kama_unit(), KamaState::init(window, fast_sc, slow_sc), inputs).1[k] == Fp(NAN),
{
    lemma_quiet_before(
        kama_unit(),
        |s: KamaState| s.window == window,
        |s: KamaState| s.prices.len(),
        |o: Fp| o == Fp(NAN),
        window,
        KamaState::init(window, fast_sc, slow_sc),
        inputs,
        k,
    );
}

/// Reset idempotence: a unit that has seen `before`, is reset, and then
/// sees `replay` does what a new one does on `replay`.
pub proof fn lemma_kama_reset_replays(
    window: nat,
    fast_sc: Fp,
    slow_sc: Fp,
    before: Seq<Fp>,
    replay: Seq<Fp>,
)
    ensures
        ({
            let new = KamaState::init(window, fast_sc, slow_sc);
            let s = run(kama_unit(), new, before).0;
            run(kama_unit(), KamaState::init(s.window, s.fast_sc, s.slow_sc), replay)
                == run(kama_unit(), new, replay)
        }),
{
    lemma_reset_replays(
        kama_unit(),
        |s: KamaState| KamaState::init(s.window, s.fast_sc, s.slow_sc),
        KamaState::init(window, fast_sc, slow_sc),
        before,
        replay,
    );
}

// ---------------------------------------------------------------------------
// Flat series
// ---------------------------------------------------------------------------

/// Zero loss: where the average loss is zero the index is a hundred,
/// whatever the gain.
pub proof fn lemma_zero_loss_is_hundred(gain: Fp, loss: Fp)
    requires
        loss.zero(),
    ensures
        strength_index(gain, loss) == Fp(HUNDRED),
{
}

/// Whether every sample of a series is `x`.
pub open spec fn flat_samples(inputs: Seq<Fp>, x: Fp) -> bool {
    forall|k: int| 0 <= k < inputs.len() ==> #[trigger] inputs[k] == x
}

/// The state of a relative strength index that has seen nothing but the
/// sample `x`: new, or seeded, or holding averages of zero.
pub open spec fn rsi_at_rest(s: RsiState, window: nat, x: Fp) -> bool {
    &&& s.window == window
    &&& s.alpha == wilder_alpha(window)
    &&& s.count == 0 ==> s == RsiState::init(window)
    &&& s.count > 0 ==> s.prev_close == x
    &&& s.count == 1 ==> s.avg_gain == Fp(NAN) && s.avg_loss == Fp(NAN)
    &&& s.count > 1 ==> s.avg_gain.zero() && s.avg_loss.zero()
}

/// Degenerate input: the relative strength index of a flat series is a
/// hundred from the `window`-th sample on, the first sample apart. No loss
/// is ever accumulated, and the zero-loss rule applies.
pub proof fn lemma_flat_rsi_is_hundred(window: nat, x: Fp, inputs: Seq<Fp>, k: int)
    requires
        window <= usize::MAX,
        x.finite(),
        usable_constant(wilder_alpha(window)),
        flat_samples(inputs, x),
        1 <= k < inputs.len(),
        window <= k + 1,
    ensures
        run(rsi_unit(), RsiState::init(window), inputs).1[k] == Fp(HUNDRED),
{
    lemma_run_at(rsi_unit(), RsiState::init(window), inputs, k);
    let before = inputs.take(k);
    assert(x.sub_spec(x) == Fp(ZERO));
    assert(gain_of(Fp(ZERO)) == Fp(ZERO));
    assert(loss_of(Fp(ZERO)).zero());
    assert forall|s: RsiState, v: Fp| rsi_at_rest(s, window, x) && v == x implies rsi_at_rest(
        #[trigger] rsi_unit()(s, v).0,
        window,
        x,
    ) by {
        let next = s.step(x).0;
        assert(next.count == bump(s.count));
    }
    lemma_run_keeps_on(
        rsi_unit(),
        |s: RsiState| rsi_at_rest(s, window, x),
        |v: Fp| v == x,
        RsiState::init(window),
        before,
    );
    lemma_count_after(rsi_unit(), |s: RsiState| s.count, RsiState::init(window), before);
    assert(inputs[k] == x);
}

/// The output at position `k` of a new relative strength index fed
/// `inputs`.
pub open spec fn rsi_output(window: nat, inputs: Seq<Fp>, k: int) -> Fp {
    run(rsi_unit(), RsiState::init(window), inputs).1[k]
}

/// Tests whether the constant of Wilder's average over `window` samples is
/// usable. Where it is, the relative strength index of every flat series is
/// a hundred from the `window`-th sample on, the first sample apart.
pub fn flat_rsi_is_hundred(window: usize) -> (ok: bool)
    ensures
        ok == usable_constant(wilder_alpha(window as nat)),
        ok ==> forall|x: Fp, inputs: Seq<Fp>, k: int|
            #![trigger flat_samples(inputs, x), rsi_output(window as nat, inputs, k)]
            x.finite() && flat_samples(inputs, x) && 1 <= k < inputs.len() && window <= k + 1
                ==> rsi_output(window as nat, inputs, k) == Fp(HUNDRED),
{
    let ok = wilder_constant_is_usable(window);
    proof {
        if ok {
            assert forall|x: Fp, inputs: Seq<Fp>, k: int|
                #![trigger flat_samples(inputs, x), rsi_output(window as nat, inputs, k)]
                x.finite() && flat_samples(inputs, x) && 1 <= k < inputs.len() && window <= k
                    + 1 implies rsi_output(window as nat, inputs, k) == Fp(HUNDRED) by {
                lemma_flat_rsi_is_hundred(window as nat, x, inputs, k);
            }
        }
    }
    ok
}

} // verus!
