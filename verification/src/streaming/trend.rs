//! Streaming trend indicators.

use vstd::prelude::*;
use crate::fp::{Fp, NAN, ZERO, ONE, TWO, HUNDRED, EXACT_LIMIT, of_nat};
use crate::series::{
    ramp_dot, ramp_total, ramp_dot_of, ramp_total_of, sum, sum_of, abs_dev_range, abs_dev_of,
    max_range, min_range, max_of, min_of, bump, bumped, last_eq, last_eq_of, flat,
    lemma_flat_deviations, lemma_zero_over_length, flat_run, flat_mean_exact, flat_mean_is_exact,
};
use crate::window::{Window, slide};
use crate::streaming::run::{run, lemma_quiet_before, lemma_reset_replays};
use crate::formulas::{
    directional_index, dx_of, ema_alpha, minus_dm, plus_dm, smooth, smoothed, true_range_after,
    true_range_step, typical, typical_price, wilder_alpha, wilder_smooth, wilder_smoothed,
};

verus! {

// ---------------------------------------------------------------------------
// Simple moving average
// ---------------------------------------------------------------------------

/// State of the simple moving average: the last samples and their running sum.
pub struct SmaState {
    pub window: nat,
    pub buffer: Seq<Fp>,
    pub sum: Fp,
}

impl SmaState {
    /// The state of a new unit.
    pub open spec fn init(window: nat) -> SmaState {
        SmaState { window, buffer: Seq::empty(), sum: Fp(ZERO) }
    }

    /// The window is positive and the buffer holds no more than it.
    pub open spec fn valid(self) -> bool {
        self.window >= 1 && self.buffer.len() <= self.window
    }

    /// The state after `value`, and the average: undefined until `window`
    /// samples have arrived, then the running sum over `window`. The sample
    /// that leaves is taken out of the sum before the new one is added.
    pub open spec fn step(self, value: Fp) -> (SmaState, Fp) {
        let kept = if self.buffer.len() >= self.window {
            self.sum.sub_spec(self.buffer[0])
        } else {
            self.sum
        };
        let sum = kept.add_spec(value);
        let buffer = slide(self.buffer, value, self.window);
        let out = if buffer.len() < self.window {
            Fp(NAN)
        } else {
            sum.div_spec(of_nat(self.window))
        };
        (SmaState { window: self.window, buffer, sum }, out)
    }
}

/// Streaming simple moving average.
pub struct SMAStreaming {
    window: usize,
    buffer: Window,
    sum: Fp,
}

impl View for SMAStreaming {
    type V = SmaState;

    closed spec fn view(&self) -> SmaState {
        SmaState { window: self.window as nat, buffer: self.buffer@, sum: self.sum }
    }
}

impl SMAStreaming {
    /// What the unit keeps true of its own fields between calls.
    pub closed spec fn wf(&self) -> bool {
        &&& self.window >= 1
        &&& self.buffer.wf()
        &&& self.buffer.capacity() == self.window
    }

    pub fn new(window: usize) -> (r: Self)
        requires
            window >= 1,
        ensures
            r.wf(),
            r@ == SmaState::init(window as nat),
    {
        SMAStreaming { window, buffer: Window::new(window), sum: Fp(ZERO) }
    }

    pub fn update(&mut self, value: Fp) -> (r: Fp)
        requires
            old(self).wf(),
        ensures
            final(self).wf(),
            final(self)@.valid(),
            (final(self)@, r) == old(self)@.step(value),
    {
        match self.buffer.push(value) {
            Some(oldest) => {
                self.sum = self.sum.sub(oldest);
            },
            None => {},
        }
        self.sum = self.sum.add(value);
        if self.buffer.len() < self.window {
            Fp(NAN)
        } else {
            self.sum.div(Fp::from_usize(self.window))
        }
    }

    /// Returns the unit to the state it was made in.
    pub fn reset(&mut self)
        requires
            old(self).wf(),
        ensures
            final(self).wf(),
            final(self)@ == SmaState::init(old(self)@.window),
    {
        self.buffer.clear();
        self.sum = Fp(ZERO);
    }
}

/// The simple moving average as a step from state and input to state and output.
pub open spec fn sma_unit() -> spec_fn(SmaState, Fp) -> (SmaState, Fp) {
    |s: SmaState, x: Fp| s.step(x)
}

/// Warm-up: a new simple moving average gives nothing before its `window`-th sample.
pub proof fn lemma_sma_warm_up(window: nat, inputs: Seq<Fp>, k: int)
    requires
        0 <= k < inputs.len(),
        k + 1 < window,
    ensures
        run(sma_unit(), SmaState::init(window), inputs).1[k] == Fp(NAN),
{
    lemma_quiet_before(
        sma_unit(),
        |s: SmaState| s.window == window,
        |s: SmaState| s.buffer.len(),
        |o: Fp| o == Fp(NAN),
        window,
        SmaState::init(window),
        inputs,
        k,
    );
}

/// Reset idempotence: a unit that has seen `before`, is reset, and then
/// sees `replay` does what a new one does on `replay`.
pub proof fn lemma_sma_reset_replays(window: nat, before: Seq<Fp>, replay: Seq<Fp>)
    ensures
        ({
            let new = SmaState::init(window);
            let s = run(sma_unit(), new, before).0;
            run(sma_unit(), SmaState::init(s.window), replay) == run(sma_unit(), new, replay)
        }),
{
    lemma_reset_replays(
        sma_unit(),
        |s: SmaState| SmaState::init(s.window),
        SmaState::init(window),
        before,
        replay,
    );
}

// ---------------------------------------------------------------------------
// Exponential moving average
// ---------------------------------------------------------------------------

/// State of the exponential moving average: the current value, undefined
/// until the first sample.
pub struct EmaState {
    pub window: nat,
    pub alpha: Fp,
    pub current: Fp,
}

impl EmaState {
    /// The state of a new unit.
    pub open spec fn init(window: nat) -> EmaState {
        EmaState { window, alpha: ema_alpha(window), current: Fp(NAN) }
    }

    /// The first sample seeds the average; each later one is smoothed into
    /// it. An average that has become a NaN is seeded again.
    pub open spec fn step(self, value: Fp) -> (EmaState, Fp) {
        let current = if self.current.nan() {
            value
        } else {
            smooth(self.alpha, value, self.current)
        };
        (EmaState { window: self.window, alpha: self.alpha, current }, current)
    }
}

/// Streaming exponential moving average.
pub struct EMAStreaming {
    window: usize,
    alpha: Fp,
    current_value: Fp,
}

impl View for EMAStreaming {
    type V = EmaState;

    closed spec fn view(&self) -> EmaState {
        EmaState { window: self.window as nat, alpha: self.alpha, current: self.current_value }
    }
}

impl EMAStreaming {
    /// What the unit keeps true of its own fields between calls.
    pub closed spec fn wf(&self) -> bool {
        &&& self.window >= 1
        &&& self.alpha == ema_alpha(self.window as nat)
    }

    pub fn new(window: usize) -> (r: Self)
        requires
            window >= 1,
        ensures
            r.wf(),
            r@ == EmaState::init(window as nat),
    {
        let alpha = Fp(TWO).div(Fp::from_usize(window).add(Fp(ONE)));
        EMAStreaming { window, alpha, current_value: Fp(NAN) }
    }

    pub fn update(&mut self, value: Fp) -> (r: Fp)
        requires
            old(self).wf(),
        ensures
            final(self).wf(),
            (final(self)@, r) == old(self)@.step(value),
    {
        if self.current_value.is_nan() {
            self.current_value = value;
        } else {
            self.current_value = smoothed(self.alpha, value, self.current_value);
        }
        self.current_value
    }

    /// Returns the unit to the state it was made in.
    pub fn reset(&mut self)
        requires
            old(self).wf(),
        ensures
            final(self).wf(),
            final(self)@.alpha == old(self)@.alpha,
            final(self)@ == EmaState::init(old(self)@.window),
    {
        self.current_value = Fp(NAN);
    }
}

/// The exponential moving average as a step from state and input to state and output.
pub open spec fn ema_unit() -> spec_fn(EmaState, Fp) -> (EmaState, Fp) {
    |s: EmaState, x: Fp| s.step(x)
}

/// Reset idempotence: a unit that has seen `before`, is reset, and then
/// sees `replay` does what a new one does on `replay`.
pub proof fn lemma_ema_reset_replays(window: nat, before: Seq<Fp>, replay: Seq<Fp>)
    ensures
        ({
            let new = EmaState::init(window);
            let s = run(ema_unit(), new, before).0;
            run(ema_unit(), EmaState::init(s.window), replay) == run(ema_unit(), new, replay)
        }),
{
    lemma_reset_replays(
        ema_unit(),
        |s: EmaState| EmaState::init(s.window),
        EmaState::init(window),
        before,
        replay,
    );
}

// ---------------------------------------------------------------------------
// Weighted moving average
// ---------------------------------------------------------------------------

/// State of the weighted moving average: the last samples.
pub struct WmaState {
    pub window: nat,
    pub buffer: Seq<Fp>,
}

impl WmaState {
    /// The state of a new unit.
    pub open spec fn init(window: nat) -> WmaState {
        WmaState { window, buffer: Seq::empty() }
    }

    pub open spec fn valid(self) -> bool {
        self.window >= 1 && self.buffer.len() <= self.window
    }

    /// Undefined until `window` samples have arrived; then the samples,
    /// weighted one to `window` from oldest to newest, over the weights' sum.
    pub open spec fn step(self, value: Fp) -> (WmaState, Fp) {
        let buffer = slide(self.buffer, value, self.window);
        let out = if buffer.len() < self.window {
            Fp(NAN)
        } else {
            ramp_dot(buffer, 0, buffer.len() as int).div_spec(ramp_total(self.window))
        };
        (WmaState { window: self.window, buffer }, out)
    }
}

/// Streaming weighted moving average.
pub struct WMAStreaming {
    window: usize,
    buffer: Window,
    sum_weights: Fp,
}

impl View for WMAStreaming {
    type V = WmaState;

    closed spec fn view(&self) -> WmaState {
        WmaState { window: self.window as nat, buffer: self.buffer@ }
    }
}

impl WMAStreaming {
    /// What the unit keeps true of its own fields between calls.
    pub closed spec fn wf(&self) -> bool {
        &&& self.window >= 1
        &&& self.buffer.wf()
        &&& self.buffer.capacity() == self.window
        &&& self.sum_weights == ramp_total(self.window as nat)
    }

    pub fn new(window: usize) -> (r: Self)
        requires
            window >= 1,
        ensures
            r.wf(),
            r@ == WmaState::init(window as nat),
    {
        WMAStreaming { window, buffer: Window::new(window), sum_weights: ramp_total_of(window) }
    }

    pub fn update(&mut self, value: Fp) -> (r: Fp)
        requires
            old(self).wf(),
        ensures
            final(self).wf(),
            final(self)@.valid(),
            (final(self)@, r) == old(self)@.step(value),
    {
        self.buffer.push(value);
        if self.buffer.len() < self.window {
            Fp(NAN)
        } else {
            ramp_dot_of(&self.buffer, 0, self.buffer.len()).div(self.sum_weights)
        }
    }

    /// Returns the unit to the state it was made in.
    pub fn reset(&mut self)
        requires
            old(self).wf(),
        ensures
            final(self).wf(),
            final(self)@ == WmaState::init(old(self)@.window),
    {
        self.buffer.clear();
    }
}

/// The weighted moving average as a step from state and input to state and output.
pub open spec fn wma_unit() -> spec_fn(WmaState, Fp) -> (WmaState, Fp) {
    |s: WmaState, x: Fp| s.step(x)
}

/// Warm-up: a new weighted moving average gives nothing before its `window`-th sample.
pub proof fn lemma_wma_warm_up(window: nat, inputs: Seq<Fp>, k: int)
    requires
        0 <= k < inputs.len(),
        k + 1 < window,
    ensures
        run(wma_unit(), WmaState::init(window), inputs).1[k] == Fp(NAN),
{
    lemma_quiet_before(
        wma_unit(),
        |s: WmaState| s.window == window,
        |s: WmaState| s.buffer.len(),
        |o: Fp| o == Fp(NAN),
        window,
        WmaState::init(window),
        inputs,
        k,
    );
}

/// Reset idempotence: a unit that has seen `before`, is reset, and then
/// sees `replay` does what a new one does on `replay`.
pub proof fn lemma_wma_reset_replays(window: nat, before: Seq<Fp>, replay: Seq<Fp>)
    ensures
        ({
            let new = WmaState::init(window);
            let s = run(wma_unit(), new, before).0;
            run(wma_unit(), WmaState::init(s.window), replay) == run(wma_unit(), new, replay)
        }),
{
    lemma_reset_replays(
        wma_unit(),
        |s: WmaState| WmaState::init(s.window),
        WmaState::init(window),
        before,
        replay,
    );
}

// ---------------------------------------------------------------------------
// Exponential average with adjusted weights
// ---------------------------------------------------------------------------

/// State of the adjusted exponential average: the decayed sum of the samples
/// and the decayed sum of their weights, from the first sample on.
pub struct AdjustedEmaState {
    pub window: nat,
    pub alpha: Fp,
    pub started: bool,
    pub weighted_sum: Fp,
    pub divisor: Fp,
}

impl AdjustedEmaState {
    /// The state of a new unit.
    pub open spec fn init(window: nat) -> AdjustedEmaState {
        AdjustedEmaState {
            window,
            alpha: ema_alpha(window),
            started: false,
            weighted_sum: Fp(ZERO),
            divisor: Fp(ZERO),
        }
    }

    /// The first sample is the first average. After it, both sums decay by
    /// `1 - alpha` before the sample and its weight of one are added, and the
    /// average is their quotient.
    pub open spec fn step(self, value: Fp) -> (AdjustedEmaState, Fp) {
        if !self.started {
            (
                AdjustedEmaState {
                    window: self.window,
                    alpha: self.alpha,
                    started: true,
                    weighted_sum: value,
                    divisor: Fp(ONE),
                },
                value,
            )
        } else {
            let decay = Fp(ONE).sub_spec(self.alpha);
            let weighted_sum = self.weighted_sum.mul_spec(decay).add_spec(value);
            let divisor = self.divisor.mul_spec(decay).add_spec(Fp(ONE));
            (
                AdjustedEmaState {
                    window: self.window,
                    alpha: self.alpha,
                    started: true,
                    weighted_sum,
                    divisor,
                },
                weighted_sum.div_spec(divisor),
            )
        }
    }
}

/// The exponential average whose early values weigh the samples seen so far
/// by their decayed weights, as the signal line of MACD asks.
pub struct AdjustedEMAStreaming {
    window: usize,
    alpha: Fp,
    started: bool,
    weighted_sum: Fp,
    divisor: Fp,
}

impl View for AdjustedEMAStreaming {
    type V = AdjustedEmaState;

    closed spec fn view(&self) -> AdjustedEmaState {
        AdjustedEmaState {
            window: self.window as nat,
            alpha: self.alpha,
            started: self.started,
            weighted_sum: self.weighted_sum,
            divisor: self.divisor,
        }
    }
}

impl AdjustedEMAStreaming {
    /// What the unit keeps true of its own fields between calls.
    pub closed spec fn wf(&self) -> bool {
        &&& self.window >= 1
        &&& self.alpha == ema_alpha(self.window as nat)
    }

    pub fn new(window: usize) -> (r: Self)
        requires
            window >= 1,
        ensures
            r.wf(),
            r@ == AdjustedEmaState::init(window as nat),
    {
        let alpha = Fp(TWO).div(Fp::from_usize(window).add(Fp(ONE)));
        AdjustedEMAStreaming {
            window,
            alpha,
            started: false,
            weighted_sum: Fp(ZERO),
            divisor: Fp(ZERO),
        }
    }

    pub fn update(&mut self, value: Fp) -> (r: Fp)
        requires
            old(self).wf(),
        ensures
            final(self).wf(),
            (final(self)@, r) == old(self)@.step(value),
    {
        if !self.started {
            self.started = true;
            self.weighted_sum = value;
            self.divisor = Fp(ONE);
            value
        } else {
            let decay = Fp(ONE).sub(self.alpha);
            self.weighted_sum = self.weighted_sum.mul(decay).add(value);
            self.divisor = self.divisor.mul(decay).add(Fp(ONE));
            self.weighted_sum.div(self.divisor)
        }
    }

    /// Returns the unit to the state it was made in.
    pub fn reset(&mut self)
        requires
            old(self).wf(),
        ensures
            final(self).wf(),
            final(self)@.alpha == old(self)@.alpha,
            final(self)@ == AdjustedEmaState::init(old(self)@.window),
    {
        self.started = false;
        self.weighted_sum = Fp(ZERO);
        self.divisor = Fp(ZERO);
    }
}

/// The adjusted exponential average as a step from state and input to state and output.
pub open spec fn adjusted_ema_unit() -> spec_fn(AdjustedEmaState, Fp) -> (AdjustedEmaState, Fp) {
    |s: AdjustedEmaState, x: Fp| s.step(x)
}

/// Reset idempotence: a unit that has seen `before`, is reset, and then
/// sees `replay` does what a new one does on `replay`.
pub proof fn lemma_adjusted_ema_reset_replays(window: nat, before: Seq<Fp>, replay: Seq<Fp>)
    ensures
        ({
            let new = AdjustedEmaState::init(window);
            let s = run(adjusted_ema_unit(), new, before).0;
            run(adjusted_ema_unit(), AdjustedEmaState::init(s.window), replay)
                == run(adjusted_ema_unit(), new, replay)
        }),
{
    lemma_reset_replays(
        adjusted_ema_unit(),
        |s: AdjustedEmaState| AdjustedEmaState::init(s.window),
        AdjustedEmaState::init(window),
        before,
        replay,
    );
}

// ---------------------------------------------------------------------------
// MACD
// ---------------------------------------------------------------------------

/// State of MACD: its two averages of the price and the average of their
/// difference.
pub struct MacdState {
    pub fast: EmaState,
    pub slow: EmaState,
    pub signal: AdjustedEmaState,
}

impl MacdState {
    /// The state of a new unit.
    pub open spec fn init(fast: nat, slow: nat, signal: nat) -> MacdState {
        MacdState {
            fast: EmaState::init(fast),
            slow: EmaState::init(slow),
            signal: AdjustedEmaState::init(signal),
        }
    }

    /// The line is the fast average less the slow one, the signal is the
    /// adjusted average of the line, the histogram is the line less the
    /// signal. While either average is undefined, so are all three, and the
    /// signal is not fed.
    pub open spec fn step(self, value: Fp) -> (MacdState, (Fp, Fp, Fp)) {
        let (fast, f) = self.fast.step(value);
        let (slow, s) = self.slow.step(value);
        if f.nan() || s.nan() {
            (MacdState { fast, slow, signal: self.signal }, (Fp(NAN), Fp(NAN), Fp(NAN)))
        } else {
            let line = f.sub_spec(s);
            let (signal, sig) = self.signal.step(line);
            let histogram = if sig.nan() {
                Fp(NAN)
            } else {
                line.sub_spec(sig)
            };
            (MacdState { fast, slow, signal }, (line, sig, histogram))
        }
    }
}

/// Streaming MACD.
pub struct MACDStreaming {
    fast_ema: EMAStreaming,
    slow_ema: EMAStreaming,
    signal_ema: AdjustedEMAStreaming,
}

impl View for MACDStreaming {
    type V = MacdState;

    closed spec fn view(&self) -> MacdState {
        MacdState { fast: self.fast_ema@, slow: self.slow_ema@, signal: self.signal_ema@ }
    }
}

impl MACDStreaming {
    /// What the unit keeps true of its own fields between calls.
    pub closed spec fn wf(&self) -> bool {
        self.fast_ema.wf() && self.slow_ema.wf() && self.signal_ema.wf()
    }

    pub fn new(fast_period: usize, slow_period: usize, signal_period: usize) -> (r: Self)
        requires
            fast_period >= 1,
            slow_period >= 1,
            signal_period >= 1,
        ensures
            r.wf(),
            r@ == MacdState::init(fast_period as nat, slow_period as nat, signal_period as nat),
    {
        MACDStreaming {
            fast_ema: EMAStreaming::new(fast_period),
            slow_ema: EMAStreaming::new(slow_period),
            signal_ema: AdjustedEMAStreaming::new(signal_period),
        }
    }

    /// Returns the line, the signal and the histogram.
    pub fn update(&mut self, value: Fp) -> (r: (Fp, Fp, Fp))
        requires
            old(self).wf(),
        ensures
            final(self).wf(),
            (final(self)@, r) == old(self)@.step(value),
    {
        let fast = self.fast_ema.update(value);
        let slow = self.slow_ema.update(value);
        if fast.is_nan() || slow.is_nan() {
            return (Fp(NAN), Fp(NAN), Fp(NAN));
        }
        let macd_line = fast.sub(slow);
        let signal_line = self.signal_ema.update(macd_line);
        let histogram = if signal_line.is_nan() {
            Fp(NAN)
        } else {
            macd_line.sub(signal_line)
        };
        (macd_line, signal_line, histogram)
    }

    /// Returns the unit to the state it was made in.
    pub fn reset(&mut self)
        requires
            old(self).wf(),
        ensures
            final(self).wf(),
            final(self)@.fast.alpha == old(self)@.fast.alpha,
            final(self)@.slow.alpha == old(self)@.slow.alpha,
            final(self)@.signal.alpha == old(self)@.signal.alpha,
            final(self)@ == MacdState::init(
                old(self)@.fast.window,
                old(self)@.slow.window,
                old(self)@.signal.window,
            ),
    {
        self.fast_ema.reset();
        self.slow_ema.reset();
        self.signal_ema.reset();
    }
}

/// The MACD as a step from state and input to state and output.
pub open spec fn macd_unit() -> spec_fn(MacdState, Fp) -> (MacdState, (Fp, Fp, Fp)) {
    |s: MacdState, x: Fp| s.step(x)
}

/// Reset idempotence: a unit that has seen `before`, is reset, and then
/// sees `replay` does what a new one does on `replay`.
pub proof fn lemma_macd_reset_replays(
    fast: nat,
    slow: nat,
    signal: nat,
    before: Seq<Fp>,
    replay: Seq<Fp>,
)
    ensures
        ({
            let new = MacdState::init(fast, slow, signal);
            let s = run(macd_unit(), new, before).0;
            run(macd_unit(), MacdState::init(s.fast.window, s.slow.window, s.signal.window), replay)
                == run(macd_unit(), new, replay)
        }),
{
    lemma_reset_replays(
        macd_unit(),
        |s: MacdState| MacdState::init(s.fast.window, s.slow.window, s.signal.window),
        MacdState::init(fast, slow, signal),
        before,
        replay,
    );
}

// ---------------------------------------------------------------------------
// ADX
// ---------------------------------------------------------------------------

/// State of ADX: the previous bar, the smoothed movements, true range and
/// index, and the number of bars seen.
pub struct AdxState {
    pub window: nat,
    pub alpha: Fp,
    pub prev_high: Fp,
    pub prev_low: Fp,
    pub prev_close: Fp,
    pub smoothed_plus_dm: Fp,
    pub smoothed_minus_dm: Fp,
    pub smoothed_tr: Fp,
    pub smoothed_dx: Fp,
    pub count: nat,
}

impl AdxState {
    /// The state of a new unit.
    pub open spec fn init(window: nat) -> AdxState {
        AdxState {
            window,
            alpha: wilder_alpha(window),
            prev_high: Fp(NAN),
            prev_low: Fp(NAN),
            prev_close: Fp(NAN),
            smoothed_plus_dm: Fp(NAN),
            smoothed_minus_dm: Fp(NAN),
            smoothed_tr: Fp(NAN),
            smoothed_dx: Fp(NAN),
            count: 0,
        }
    }

    /// The three smoothed values after a bar that has a predecessor: seeded
    /// by the raw values while undefined, Wilder-smoothed afterwards.
    pub open spec fn smoothed_after(self, high: Fp, low: Fp) -> (Fp, Fp, Fp) {
        let high_diff = high.sub_spec(self.prev_high);
        let low_diff = self.prev_low.sub_spec(low);
        let p = plus_dm(high_diff, low_diff);
        let m = minus_dm(high_diff, low_diff);
        let tr = true_range_after(high, low, self.prev_close);
        if self.smoothed_plus_dm.nan() {
            (p, m, tr)
        } else {
            (
                wilder_smooth(self.alpha, p, self.smoothed_plus_dm),
                wilder_smooth(self.alpha, m, self.smoothed_minus_dm),
                wilder_smooth(self.alpha, tr, self.smoothed_tr),
            )
        }
    }

    /// The first bar only seeds the previous bar. Each later bar updates the
    /// smoothed values; the two indicators are defined when the smoothed true
    /// range is positive; the index is smoothed when their sum is positive,
    /// and reported once `window` bars have been seen.
    pub open spec fn step(self, high: Fp, low: Fp, close: Fp) -> (AdxState, (Fp, Fp, Fp)) {
        let count = bump(self.count);
        if count == 1 {
            (
                AdxState { prev_high: high, prev_low: low, prev_close: close, count, ..self },
                (Fp(NAN), Fp(NAN), Fp(NAN)),
            )
        } else {
            let (sp, sm, st) = self.smoothed_after(high, low);
            if st.gt_spec(Fp(ZERO)) {
                let plus_di = directional_index(sp, st);
                let minus_di = directional_index(sm, st);
                if plus_di.add_spec(minus_di).gt_spec(Fp(ZERO)) {
                    let dx = dx_of(plus_di, minus_di);
                    let sdx = if self.smoothed_dx.nan() {
                        dx
                    } else {
                        wilder_smooth(self.alpha, dx, self.smoothed_dx)
                    };
                    let adx = if count >= self.window {
                        sdx
                    } else {
                        Fp(NAN)
                    };
                    (
                        AdxState {
                            prev_high: high,
                            prev_low: low,
                            prev_close: close,
                            smoothed_plus_dm: sp,
                            smoothed_minus_dm: sm,
                            smoothed_tr: st,
                            smoothed_dx: sdx,
                            count,
                            ..self
                        },
                        (adx, plus_di, minus_di),
                    )
                } else {
                    (
                        AdxState {
                            prev_high: high,
                            prev_low: low,
                            prev_close: close,
                            smoothed_plus_dm: sp,
                            smoothed_minus_dm: sm,
                            smoothed_tr: st,
                            count,
                            ..self
                        },
                        (Fp(NAN), plus_di, minus_di),
                    )
                }
            } else {
                (
                    AdxState {
                        prev_high: high,
                        prev_low: low,
                        prev_close: close,
                        smoothed_plus_dm: sp,
                        smoothed_minus_dm: sm,
                        smoothed_tr: st,
                        count,
                        ..self
                    },
                    (Fp(NAN), Fp(NAN), Fp(NAN)),
                )
            }
        }
    }
}

/// Streaming average directional index.
pub struct ADXStreaming {
    window: usize,
    alpha: Fp,
    prev_high: Fp,
    prev_low: Fp,
    prev_close: Fp,
    smoothed_plus_dm: Fp,
    smoothed_minus_dm: Fp,
    smoothed_tr: Fp,
    smoothed_dx: Fp,
    update_count: usize,
}

impl View for ADXStreaming {
    type V = AdxState;

    closed spec fn view(&self) -> AdxState {
        AdxState {
            window: self.window as nat,
            alpha: self.alpha,
            prev_high: self.prev_high,
            prev_low: self.prev_low,
            prev_close: self.prev_close,
            smoothed_plus_dm: self.smoothed_plus_dm,
            smoothed_minus_dm: self.smoothed_minus_dm,
            smoothed_tr: self.smoothed_tr,
            smoothed_dx: self.smoothed_dx,
            count: self.update_count as nat,
        }
    }
}

impl ADXStreaming {
    /// What the unit keeps true of its own fields between calls.
    pub closed spec fn wf(&self) -> bool {
        &&& self.window >= 1
        &&& self.alpha == wilder_alpha(self.window as nat)
    }

    pub fn new(window: usize) -> (r: Self)
        requires
            window >= 1,
        ensures
            r.wf(),
            r@ == AdxState::init(window as nat),
    {
        ADXStreaming {
            window,
            alpha: Fp(ONE).div(Fp::from_usize(window)),
            prev_high: Fp(NAN),
            prev_low: Fp(NAN),
            prev_close: Fp(NAN),
            smoothed_plus_dm: Fp(NAN),
            smoothed_minus_dm: Fp(NAN),
            smoothed_tr: Fp(NAN),
            smoothed_dx: Fp(NAN),
            update_count: 0,
        }
    }

    /// Returns the index and the upward and downward indicators.
    pub fn update(&mut self, high: Fp, low: Fp, close: Fp) -> (r: (Fp, Fp, Fp))
        requires
            old(self).wf(),
        ensures
            final(self).wf(),
            (final(self)@, r) == old(self)@.step(high, low, close),
    {
        self.update_count = bumped(self.update_count);
        if self.update_count == 1 {
            self.prev_high = high;
            self.prev_low = low;
            self.prev_close = close;
            return (Fp(NAN), Fp(NAN), Fp(NAN));
        }
        let high_diff = high.sub(self.prev_high);
        let low_diff = self.prev_low.sub(low);
        let plus = if high_diff.gt(low_diff) && high_diff.gt(Fp(ZERO)) {
            high_diff
        } else {
            Fp(ZERO)
        };
        let minus = if low_diff.gt(high_diff) && low_diff.gt(Fp(ZERO)) {
            low_diff
        } else {
            Fp(ZERO)
        };
        let tr = true_range_step(high, low, self.prev_close);
        if self.smoothed_plus_dm.is_nan() {
            self.smoothed_plus_dm = plus;
            self.smoothed_minus_dm = minus;
            self.smoothed_tr = tr;
        } else {
            self.smoothed_plus_dm = wilder_smoothed(self.alpha, plus, self.smoothed_plus_dm);
            self.smoothed_minus_dm = wilder_smoothed(self.alpha, minus, self.smoothed_minus_dm);
            self.smoothed_tr = wilder_smoothed(self.alpha, tr, self.smoothed_tr);
        }
        let mut adx = Fp(NAN);
        let mut plus_di = Fp(NAN);
        let mut minus_di = Fp(NAN);
        if self.smoothed_tr.gt(Fp(ZERO)) {
            plus_di = Fp(HUNDRED).mul(self.smoothed_plus_dm.div(self.smoothed_tr));
            minus_di = Fp(HUNDRED).mul(self.smoothed_minus_dm.div(self.smoothed_tr));
            let di_sum = plus_di.add(minus_di);
            if di_sum.gt(Fp(ZERO)) {
                let dx = Fp(HUNDRED).mul(plus_di.sub(minus_di).abs()).div(di_sum);
                if self.smoothed_dx.is_nan() {
                    self.smoothed_dx = dx;
                } else {
                    self.smoothed_dx = wilder_smoothed(self.alpha, dx, self.smoothed_dx);
                }
                if self.update_count >= self.window {
                    adx = self.smoothed_dx;
                }
            }
        }
        self.prev_high = high;
        self.prev_low = low;
        self.prev_close = close;
        (adx, plus_di, minus_di)
    }

    /// Returns the unit to the state it was made in.
    pub fn reset(&mut self)
        requires
            old(self).wf(),
        ensures
            final(self).wf(),
            final(self)@.alpha == old(self)@.alpha,
            final(self)@ == AdxState::init(old(self)@.window),
    {
        self.prev_high = Fp(NAN);
        self.prev_low = Fp(NAN);
        self.prev_close = Fp(NAN);
        self.smoothed_plus_dm = Fp(NAN);
        self.smoothed_minus_dm = Fp(NAN);
        self.smoothed_tr = Fp(NAN);
        self.smoothed_dx = Fp(NAN);
        self.update_count = 0;
    }
}

/// The average directional index as a step from state and input to state and output.
pub open spec fn adx_unit() -> spec_fn(AdxState, (Fp, Fp, Fp)) -> (AdxState, (Fp, Fp, Fp)) {
    |s: AdxState, x: (Fp, Fp, Fp)| s.step(x.0, x.1, x.2)
}

/// Warm-up: a new average directional index gives nothing before its `window`-th bar.
pub proof fn lemma_adx_warm_up(window: nat, inputs: Seq<(Fp, Fp, Fp)>, k: int)
    requires
        0 <= k < inputs.len(),
        k + 1 < window,
    ensures
        ({
            let o = run(adx_unit(), AdxState::init(window), inputs).1[k];
            o.0 == Fp(NAN)
        }),
{
    lemma_quiet_before(
        adx_unit(),
        |s: AdxState| s.window == window,
        |s: AdxState| s.count,
        |o: (Fp, Fp, Fp)| o.0 == Fp(NAN),
        window,
        AdxState::init(window),
        inputs,
        k,
    );
}

/// Reset idempotence: a unit that has seen `before`, is reset, and then
/// sees `replay` does what a new one does on `replay`.
pub proof fn lemma_adx_reset_replays(
    window: nat,
    before: Seq<(Fp, Fp, Fp)>,
    replay: Seq<(Fp, Fp, Fp)>,
)
    ensures
        ({
            let new = AdxState::init(window);
            let s = run(adx_unit(), new, before).0;
            run(adx_unit(), AdxState::init(s.window), replay) == run(adx_unit(), new, replay)
        }),
{
    lemma_reset_replays(
        adx_unit(),
        |s: AdxState| AdxState::init(s.window),
        AdxState::init(window),
        before,
        replay,
    );
}

// ---------------------------------------------------------------------------
// CCI
// ---------------------------------------------------------------------------

/// State of the commodity channel index: the last typical prices.
pub struct CciState {
    pub window: nat,
    pub constant: Fp,
    pub buffer: Seq<Fp>,
}

impl CciState {
    /// The state of a new unit.
    pub open spec fn init(window: nat, constant: Fp) -> CciState {
        CciState { window, constant, buffer: Seq::empty() }
    }

    pub open spec fn valid(self) -> bool {
        self.window >= 1 && self.buffer.len() <= self.window
    }

    /// Undefined until `window` bars have arrived. Then the distance of the
    /// typical price from the window's mean, over the constant times the mean
    /// absolute deviation; zero where that deviation is zero.
    pub open spec fn step(self, high: Fp, low: Fp, close: Fp) -> (CciState, Fp) {
        let tp = typical(high, low, close);
        let buffer = slide(self.buffer, tp, self.window);
        let out = if buffer.len() < self.window {
            Fp(NAN)
        } else {
            let mean = sum(buffer).div_spec(of_nat(self.window));
            let mad = abs_dev_range(buffer, 0, buffer.len() as int, mean).div_spec(
                of_nat(self.window),
            );
            if mad.eq_spec(Fp(ZERO)) {
                Fp(ZERO)
            } else {
                tp.sub_spec(mean).div_spec(self.constant.mul_spec(mad))
            }
        };
        (CciState { window: self.window, constant: self.constant, buffer }, out)
    }
}

/// Streaming commodity channel index.
pub struct CCIStreaming {
    window: usize,
    constant: Fp,
    tp_buffer: Window,
}

impl View for CCIStreaming {
    type V = CciState;

    closed spec fn view(&self) -> CciState {
        CciState { window: self.window as nat, constant: self.constant, buffer: self.tp_buffer@ }
    }
}

impl CCIStreaming {
    /// What the unit keeps true of its own fields between calls.
    pub closed spec fn wf(&self) -> bool {
        &&& self.window >= 1
        &&& self.tp_buffer.wf()
        &&& self.tp_buffer.capacity() == self.window
    }

    pub fn new(window: usize, constant: Fp) -> (r: Self)
        requires
            window >= 1,
        ensures
            r.wf(),
            r@ == CciState::init(window as nat, constant),
    {
        CCIStreaming { window, constant, tp_buffer: Window::new(window) }
    }

    pub fn update(&mut self, high: Fp, low: Fp, close: Fp) -> (r: Fp)
        requires
            old(self).wf(),
        ensures
            final(self).wf(),
            final(self)@.valid(),
            (final(self)@, r) == old(self)@.step(high, low, close),
    {
        let tp = typical_price(high, low, close);
        self.tp_buffer.push(tp);
        if self.tp_buffer.len() < self.window {
            Fp(NAN)
        } else {
            let n = self.tp_buffer.len();
            let w = Fp::from_usize(self.window);
            let mean = sum_of(&self.tp_buffer, 0, n).div(w);
            let mad = abs_dev_of(&self.tp_buffer, 0, n, mean).div(w);
            if mad.eq(Fp(ZERO)) {
                Fp(ZERO)
            } else {
                tp.sub(mean).div(self.constant.mul(mad))
            }
        }
    }

    /// Returns the unit to the state it was made in.
    pub fn reset(&mut self)
        requires
            old(self).wf(),
        ensures
            final(self).wf(),
            final(self)@ == CciState::init(old(self)@.window, old(self)@.constant),
    {
        self.tp_buffer.clear();
    }
}

/// The commodity channel index as a step from state and input to state and output.
pub open spec fn cci_unit() -> spec_fn(CciState, (Fp, Fp, Fp)) -> (CciState, Fp) {
    |s: CciState, x: (Fp, Fp, Fp)| s.step(x.0, x.1, x.2)
}

/// Warm-up: a new commodity channel index gives nothing before its `window`-th bar.
pub proof fn lemma_cci_warm_up(window: nat, constant: Fp, inputs: Seq<(Fp, Fp, Fp)>, k: int)
    requires
        0 <= k < inputs.len(),
        k + 1 < window,
    ensures
        run(cci_unit(), CciState::init(window, constant), inputs).1[k] == Fp(NAN),
{
    lemma_quiet_before(
        cci_unit(),
        |s: CciState| s.window == window,
        |s: CciState| s.buffer.len(),
        |o: Fp| o == Fp(NAN),
        window,
        CciState::init(window, constant),
        inputs,
        k,
    );
}

/// Reset idempotence: a unit that has seen `before`, is reset, and then
/// sees `replay` does what a new one does on `replay`.
pub proof fn lemma_cci_reset_replays(
    window: nat,
    constant: Fp,
    before: Seq<(Fp, Fp, Fp)>,
    replay: Seq<(Fp, Fp, Fp)>,
)
    ensures
        ({
            let new = CciState::init(window, constant);
            let s = run(cci_unit(), new, before).0;
            run(cci_unit(), CciState::init(s.window, s.constant), replay)
                == run(cci_unit(), new, replay)
        }),
{
    lemma_reset_replays(
        cci_unit(),
        |s: CciState| CciState::init(s.window, s.constant),
        CciState::init(window, constant),
        before,
        replay,
    );
}

// ---------------------------------------------------------------------------
// DPO
// ---------------------------------------------------------------------------

/// State of the detrended price oscillator: a moving average and the last
/// prices.
pub struct DpoState {
    pub window: nat,
    pub sma: SmaState,
    pub prices: Seq<Fp>,
}

impl DpoState {
    /// The state of a new unit.
    pub open spec fn init(window: nat) -> DpoState {
        DpoState { window, sma: SmaState::init(window), prices: Seq::empty() }
    }

    pub open spec fn valid(self) -> bool {
        self.window >= 1 && self.prices.len() <= self.window && self.sma.valid()
    }

    /// How far back the price is taken: half the window, plus one.
    pub open spec fn displacement(self) -> nat {
        self.window / 2 + 1
    }

    /// The price `displacement` bars back, less the moving average; undefined
    /// while the average is, or while fewer prices are held.
    pub open spec fn step(self, value: Fp) -> (DpoState, Fp) {
        let prices = slide(self.prices, value, self.window);
        let (sma, avg) = self.sma.step(value);
        let out = if prices.len() >= self.displacement() && !avg.nan() {
            prices[prices.len() - self.displacement()].sub_spec(avg)
        } else {
            Fp(NAN)
        };
        (DpoState { window: self.window, sma, prices }, out)
    }
}

/// Streaming detrended price oscillator.
pub struct DPOStreaming {
    window: usize,
    displacement: usize,
    sma_stream: SMAStreaming,
    price_buffer: Window,
}

impl View for DPOStreaming {
    type V = DpoState;

    closed spec fn view(&self) -> DpoState {
        DpoState { window: self.window as nat, sma: self.sma_stream@, prices: self.price_buffer@ }
    }
}

impl DPOStreaming {
    /// What the unit keeps true of its own fields between calls.
    pub closed spec fn wf(&self) -> bool {
        &&& self.window >= 1
        &&& self.displacement == self.window / 2 + 1
        &&& self.sma_stream.wf()
        &&& self.sma_stream@.window == self.window
        &&& self.price_buffer.wf()
        &&& self.price_buffer.capacity() == self.window
    }

    pub fn new(window: usize) -> (r: Self)
        requires
            window >= 1,
        ensures
            r.wf(),
            r@ == DpoState::init(window as nat),
    {
        DPOStreaming {
            window,
            displacement: window / 2 + 1,
            sma_stream: SMAStreaming::new(window),
            price_buffer: Window::new(window),
        }
    }

    pub fn update(&mut self, value: Fp) -> (r: Fp)
        requires
            old(self).wf(),
        ensures
            final(self).wf(),
            final(self)@.valid(),
            (final(self)@, r) == old(self)@.step(value),
    {
        self.price_buffer.push(value);
        let sma_value = self.sma_stream.update(value);
        if self.price_buffer.len() >= self.displacement && !sma_value.is_nan() {
            self.price_buffer.get(self.price_buffer.len() - self.displacement).sub(sma_value)
        } else {
            Fp(NAN)
        }
    }

    /// Returns the unit to the state it was made in.
    pub fn reset(&mut self)
        requires
            old(self).wf(),
        ensures
            final(self).wf(),
            final(self)@ == DpoState::init(old(self)@.window),
    {
        self.sma_stream.reset();
        self.price_buffer.clear();
    }
}

/// The detrended price oscillator as a step from state and input to state and output.
pub open spec fn dpo_unit() -> spec_fn(DpoState, Fp) -> (DpoState, Fp) {
    |s: DpoState, x: Fp| s.step(x)
}

/// Warm-up: a new detrended price oscillator gives nothing before its `window`-th sample.
pub proof fn lemma_dpo_warm_up(window: nat, inputs: Seq<Fp>, k: int)
    requires
        0 <= k < inputs.len(),
        k + 1 < window,
    ensures
        run(dpo_unit(), DpoState::init(window), inputs).1[k] == Fp(NAN),
{
    lemma_quiet_before(
        dpo_unit(),
        |s: DpoState| s.sma.window == window,
        |s: DpoState| s.sma.buffer.len(),
        |o: Fp| o == Fp(NAN),
        window,
        DpoState::init(window),
        inputs,
        k,
    );
}

/// Reset idempotence: a unit that has seen `before`, is reset, and then
/// sees `replay` does what a new one does on `replay`.
pub proof fn lemma_dpo_reset_replays(window: nat, before: Seq<Fp>, replay: Seq<Fp>)
    ensures
        ({
            let new = DpoState::init(window);
            let s = run(dpo_unit(), new, before).0;
            run(dpo_unit(), DpoState::init(s.window), replay) == run(dpo_unit(), new, replay)
        }),
{
    lemma_reset_replays(
        dpo_unit(),
        |s: DpoState| DpoState::init(s.window),
        DpoState::init(window),
        before,
        replay,
    );
}

// ---------------------------------------------------------------------------
// Vortex indicator
// ---------------------------------------------------------------------------

/// State of the vortex indicator: the last upward and downward movements and
/// true ranges, the previous bar, and the number of bars seen.
pub struct VortexState {
    pub window: nat,
    pub vm_plus: Seq<Fp>,
    pub vm_minus: Seq<Fp>,
    pub tr: Seq<Fp>,
    pub prev_high: Fp,
    pub prev_low: Fp,
    pub prev_close: Fp,
    pub count: nat,
}

impl VortexState {
    /// The state of a new unit.
    pub open spec fn init(window: nat) -> VortexState {
        VortexState {
            window,
            vm_plus: Seq::empty(),
            vm_minus: Seq::empty(),
            tr: Seq::empty(),
            prev_high: Fp(NAN),
            prev_low: Fp(NAN),
            prev_close: Fp(NAN),
            count: 0,
        }
    }

    pub open spec fn valid(self) -> bool {
        &&& self.window >= 1
        &&& self.vm_plus.len() <= self.window
        &&& self.vm_minus.len() == self.vm_plus.len()
        &&& self.tr.len() == self.vm_plus.len()
    }

    /// The first bar only seeds the previous bar. Each later bar adds its
    /// movements and true range to the windows; once they are full, the two
    /// indicators are the movements' sums over the true ranges' sum, where
    /// that is positive.
    pub open spec fn step(self, high: Fp, low: Fp, close: Fp) -> (VortexState, (Fp, Fp)) {
        let count = bump(self.count);
        if count == 1 {
            (
                VortexState { prev_high: high, prev_low: low, prev_close: close, count, ..self },
                (Fp(NAN), Fp(NAN)),
            )
        } else {
            let vm_plus = slide(self.vm_plus, high.sub_spec(self.prev_low).abs_spec(), self.window);
            let vm_minus = slide(
                self.vm_minus,
                low.sub_spec(self.prev_high).abs_spec(),
                self.window,
            );
            let tr = slide(self.tr, true_range_after(high, low, self.prev_close), self.window);
            let out = if vm_plus.len() >= self.window && sum(tr).gt_spec(Fp(ZERO)) {
                (sum(vm_plus).div_spec(sum(tr)), sum(vm_minus).div_spec(sum(tr)))
            } else {
                (Fp(NAN), Fp(NAN))
            };
            (
                VortexState {
                    window: self.window,
                    vm_plus,
                    vm_minus,
                    tr,
                    prev_high: high,
                    prev_low: low,
                    prev_close: close,
                    count,
                },
                out,
            )
        }
    }
}

/// Streaming vortex indicator.
pub struct VortexStreaming {
    window: usize,
    vm_plus_buffer: Window,
    vm_minus_buffer: Window,
    tr_buffer: Window,
    prev_high: Fp,
    prev_low: Fp,
    prev_close: Fp,
    update_count: usize,
}

impl View for VortexStreaming {
    type V = VortexState;

    closed spec fn view(&self) -> VortexState {
        VortexState {
            window: self.window as nat,
            vm_plus: self.vm_plus_buffer@,
            vm_minus: self.vm_minus_buffer@,
            tr: self.tr_buffer@,
            prev_high: self.prev_high,
            prev_low: self.prev_low,
            prev_close: self.prev_close,
            count: self.update_count as nat,
        }
    }
}

impl VortexStreaming {
    /// What the unit keeps true of its own fields between calls.
    pub closed spec fn wf(&self) -> bool {
        &&& self.window >= 1
        &&& self.vm_plus_buffer.wf()
        &&& self.vm_minus_buffer.wf()
        &&& self.tr_buffer.wf()
        &&& self.vm_plus_buffer.capacity() == self.window
        &&& self.vm_minus_buffer.capacity() == self.window
        &&& self.tr_buffer.capacity() == self.window
        &&& self.vm_minus_buffer@.len() == self.vm_plus_buffer@.len()
        &&& self.tr_buffer@.len() == self.vm_plus_buffer@.len()
    }

    pub fn new(window: usize) -> (r: Self)
        requires
            window >= 1,
        ensures
            r.wf(),
            r@ == VortexState::init(window as nat),
    {
        VortexStreaming {
            window,
            vm_plus_buffer: Window::new(window),
            vm_minus_buffer: Window::new(window),
            tr_buffer: Window::new(window),
            prev_high: Fp(NAN),
            prev_low: Fp(NAN),
            prev_close: Fp(NAN),
            update_count: 0,
        }
    }

    /// Returns the upward and the downward indicator.
    pub fn update(&mut self, high: Fp, low: Fp, close: Fp) -> (r: (Fp, Fp))
        requires
            old(self).wf(),
        ensures
            final(self).wf(),
            final(self)@.valid(),
            (final(self)@, r) == old(self)@.step(high, low, close),
    {
        self.update_count = bumped(self.update_count);
        if self.update_count == 1 {
            self.prev_high = high;
            self.prev_low = low;
            self.prev_close = close;
            return (Fp(NAN), Fp(NAN));
        }
        let vm_plus = high.sub(self.prev_low).abs();
        let vm_minus = low.sub(self.prev_high).abs();
        let tr = true_range_step(high, low, self.prev_close);
        self.vm_plus_buffer.push(vm_plus);
        self.vm_minus_buffer.push(vm_minus);
        self.tr_buffer.push(tr);
        let mut result = (Fp(NAN), Fp(NAN));
        if self.vm_plus_buffer.len() >= self.window {
            let n = self.vm_plus_buffer.len();
            let sum_vm_plus = sum_of(&self.vm_plus_buffer, 0, n);
            let sum_vm_minus = sum_of(&self.vm_minus_buffer, 0, n);
            let sum_tr = sum_of(&self.tr_buffer, 0, n);
            if sum_tr.gt(Fp(ZERO)) {
                result = (sum_vm_plus.div(sum_tr), sum_vm_minus.div(sum_tr));
            }
        }
        self.prev_high = high;
        self.prev_low = low;
        self.prev_close = close;
        result
    }

    /// Returns the unit to the state it was made in.
    pub fn reset(&mut self)
        requires
            old(self).wf(),
        ensures
            final(self).wf(),
            final(self)@ == VortexState::init(old(self)@.window),
    {
        self.vm_plus_buffer.clear();
        self.vm_minus_buffer.clear();
        self.tr_buffer.clear();
        self.prev_high = Fp(NAN);
        self.prev_low = Fp(NAN);
        self.prev_close = Fp(NAN);
        self.update_count = 0;
    }
}

/// The vortex indicator as a step from state and input to state and output.
pub open spec fn vortex_unit() -> spec_fn(VortexState, (Fp, Fp, Fp)) -> (VortexState, (Fp, Fp)) {
    |s: VortexState, x: (Fp, Fp, Fp)| s.step(x.0, x.1, x.2)
}

/// Warm-up: a new vortex indicator gives nothing before its `window`-th bar.
pub proof fn lemma_vortex_warm_up(window: nat, inputs: Seq<(Fp, Fp, Fp)>, k: int)
    requires
        0 <= k < inputs.len(),
        k + 1 < window,
    ensures
        ({
            let o = run(vortex_unit(), VortexState::init(window), inputs).1[k];
            o.0 == Fp(NAN) && o.1 == Fp(NAN)
        }),
{
    lemma_quiet_before(
        vortex_unit(),
        |s: VortexState| s.window == window,
        |s: VortexState| s.vm_plus.len(),
        |o: (Fp, Fp)| o.0 == Fp(NAN) && o.1 == Fp(NAN),
        window,
        VortexState::init(window),
        inputs,
        k,
    );
}

/// Reset idempotence: a unit that has seen `before`, is reset, and then
/// sees `replay` does what a new one does on `replay`.
pub proof fn lemma_vortex_reset_replays(
    window: nat,
    before: Seq<(Fp, Fp, Fp)>,
    replay: Seq<(Fp, Fp, Fp)>,
)
    ensures
        ({
            let new = VortexState::init(window);
            let s = run(vortex_unit(), new, before).0;
            run(vortex_unit(), VortexState::init(s.window), replay)
                == run(vortex_unit(), new, replay)
        }),
{
    lemma_reset_replays(
        vortex_unit(),
        |s: VortexState| VortexState::init(s.window),
        VortexState::init(window),
        before,
        replay,
    );
}

// ---------------------------------------------------------------------------
// TRIX
// ---------------------------------------------------------------------------

/// State of TRIX: three chained averages and the last value of the third.
pub struct TrixState {
    pub ema1: EmaState,
    pub ema2: EmaState,
    pub ema3: EmaState,
    pub prev_ema3: Fp,
}

impl TrixState {
    /// The state of a new unit.
    pub open spec fn init(window: nat) -> TrixState {
        TrixState {
            ema1: EmaState::init(window),
            ema2: EmaState::init(window),
            ema3: EmaState::init(window),
            prev_ema3: Fp(NAN),
        }
    }

    /// The percentage change of the triple-smoothed value; undefined while
    /// the previous value is undefined or zero.
    pub open spec fn step(self, value: Fp) -> (TrixState, Fp) {
        let (ema1, v1) = self.ema1.step(value);
        let (ema2, v2) = self.ema2.step(v1);
        let (ema3, v3) = self.ema3.step(v2);
        let out = if !self.prev_ema3.nan() && !v3.nan() && self.prev_ema3.ne_spec(Fp(ZERO)) {
            Fp(HUNDRED).mul_spec(v3.sub_spec(self.prev_ema3)).div_spec(self.prev_ema3)
        } else {
            Fp(NAN)
        };
        (TrixState { ema1, ema2, ema3, prev_ema3: v3 }, out)
    }
}

/// Streaming TRIX.
pub struct TRIXStreaming {
    ema1: EMAStreaming,
    ema2: EMAStreaming,
    ema3: EMAStreaming,
    prev_ema3: Fp,
}

impl View for TRIXStreaming {
    type V = TrixState;

    closed spec fn view(&self) -> TrixState {
        TrixState {
            ema1: self.ema1@,
            ema2: self.ema2@,
            ema3: self.ema3@,
            prev_ema3: self.prev_ema3,
        }
    }
}

impl TRIXStreaming {
    /// What the unit keeps true of its own fields between calls.
    pub closed spec fn wf(&self) -> bool {
        &&& self.ema1.wf()
        &&& self.ema2.wf()
        &&& self.ema3.wf()
        &&& self.ema2@.window == self.ema1@.window
        &&& self.ema3@.window == self.ema1@.window
    }

    pub fn new(window: usize) -> (r: Self)
        requires
            window >= 1,
        ensures
            r.wf(),
            r@ == TrixState::init(window as nat),
    {
        TRIXStreaming {
            ema1: EMAStreaming::new(window),
            ema2: EMAStreaming::new(window),
            ema3: EMAStreaming::new(window),
            prev_ema3: Fp(NAN),
        }
    }

    pub fn update(&mut self, value: Fp) -> (r: Fp)
        requires
            old(self).wf(),
        ensures
            final(self).wf(),
            (final(self)@, r) == old(self)@.step(value),
    {
        let ema1_val = self.ema1.update(value);
        let ema2_val = self.ema2.update(ema1_val);
        let ema3_val = self.ema3.update(ema2_val);
        let result = if !self.prev_ema3.is_nan() && !ema3_val.is_nan() && self.prev_ema3.ne(
            Fp(ZERO),
        ) {
            Fp(HUNDRED).mul(ema3_val.sub(self.prev_ema3)).div(self.prev_ema3)
        } else {
            Fp(NAN)
        };
        self.prev_ema3 = ema3_val;
        result
    }

    /// Returns the unit to the state it was made in.
    pub fn reset(&mut self)
        requires
            old(self).wf(),
        ensures
            final(self).wf(),
            final(self)@.ema1.alpha == old(self)@.ema1.alpha,
            final(self)@.ema2.alpha == old(self)@.ema2.alpha,
            final(self)@.ema3.alpha == old(self)@.ema3.alpha,
            final(self)@ == TrixState::init(old(self)@.ema1.window),
    {
        self.ema1.reset();
        self.ema2.reset();
        self.ema3.reset();
        self.prev_ema3 = Fp(NAN);
    }
}

/// The TRIX as a step from state and input to state and output.
pub open spec fn trix_unit() -> spec_fn(TrixState, Fp) -> (TrixState, Fp) {
    |s: TrixState, x: Fp| s.step(x)
}

/// Reset idempotence: a unit that has seen `before`, is reset, and then
/// sees `replay` does what a new one does on `replay`.
pub proof fn lemma_trix_reset_replays(window: nat, before: Seq<Fp>, replay: Seq<Fp>)
    ensures
        ({
            let new = TrixState::init(window);
            let s = run(trix_unit(), new, before).0;
            run(trix_unit(), TrixState::init(s.ema1.window), replay)
                == run(trix_unit(), new, replay)
        }),
{
    lemma_reset_replays(
        trix_unit(),
        |s: TrixState| TrixState::init(s.ema1.window),
        TrixState::init(window),
        before,
        replay,
    );
}

// ---------------------------------------------------------------------------
// Aroon
// ---------------------------------------------------------------------------

/// An Aroon value: a hundred times the share of the window's steps, one
/// fewer than its bars, that have not passed since the extreme at position
/// `at` of `len` samples. Undefined where no sample equals the extreme.
pub open spec fn aroon_value(window: nat, len: nat, at: Option<int>) -> Fp {
    match at {
        Some(k) => of_nat((window - 1 - (len - 1 - k)) as nat).div_spec(
            of_nat((window - 1) as nat),
        ).mul_spec(Fp(HUNDRED)),
        None => Fp(NAN),
    }
}

/// State of Aroon: the last `window` highs and lows.
pub struct AroonState {
    pub window: nat,
    pub highs: Seq<Fp>,
    pub lows: Seq<Fp>,
}

impl AroonState {
    /// The state of a new unit.
    pub open spec fn init(window: nat) -> AroonState {
        AroonState { window, highs: Seq::empty(), lows: Seq::empty() }
    }

    pub open spec fn valid(self) -> bool {
        &&& self.window >= 1
        &&& self.highs.len() <= self.window
        &&& self.lows.len() == self.highs.len()
    }

    /// Undefined until `window` bars have arrived. Then each value counts
    /// the bars since the most recent occurrence of the highest high, or of
    /// the lowest low, among the `window` bars held.
    pub open spec fn step(self, high: Fp, low: Fp) -> (AroonState, (Fp, Fp)) {
        let highs = slide(self.highs, high, self.window);
        let lows = slide(self.lows, low, self.window);
        let out = if highs.len() < self.window {
            (Fp(NAN), Fp(NAN))
        } else {
            let n = highs.len() as int;
            (
                aroon_value(self.window, highs.len(), last_eq(highs, max_range(highs, 0, n), n)),
                aroon_value(self.window, lows.len(), last_eq(lows, min_range(lows, 0, n), n)),
            )
        };
        (AroonState { window: self.window, highs, lows }, out)
    }
}

/// Streaming Aroon.
pub struct AroonStreaming {
    window: usize,
    high_buffer: Window,
    low_buffer: Window,
}

impl View for AroonStreaming {
    type V = AroonState;

    closed spec fn view(&self) -> AroonState {
        AroonState {
            window: self.window as nat,
            highs: self.high_buffer@,
            lows: self.low_buffer@,
        }
    }
}

/// The last position of `x` turned into an Aroon value.
fn aroon_from(window: usize, buffer: &Window, x: Fp) -> (r: Fp)
    requires
        window >= 1,
        buffer@.len() == window,
    ensures
        r == aroon_value(
            window as nat,
            buffer@.len(),
            last_eq(buffer@, x, buffer@.len() as int),
        ),
{
    proof {
        lemma_last_eq_bound(buffer@, x, buffer@.len() as int);
    }
    match last_eq_of(buffer, x) {
        Some(k) => {
            let periods = buffer.len() - 1 - k;
            Fp::from_usize(window - 1 - periods).div(Fp::from_usize(window - 1)).mul(Fp(HUNDRED))
        },
        None => Fp(NAN),
    }
}

/// A position that `last_eq` finds lies below its bound.
pub proof fn lemma_last_eq_bound(s: Seq<Fp>, x: Fp, n: int)
    ensures
        match last_eq(s, x, n) {
            Some(k) => 0 <= k < n,
            None => true,
        },
    decreases n,
{
    if n > 0 && !s[n - 1].eq_spec(x) {
        lemma_last_eq_bound(s, x, n - 1);
    }
}

impl AroonStreaming {
    /// What the unit keeps true of its own fields between calls.
    pub closed spec fn wf(&self) -> bool {
        &&& self.window >= 1
        &&& self.high_buffer.wf()
        &&& self.low_buffer.wf()
        &&& self.high_buffer.capacity() == self.window
        &&& self.low_buffer.capacity() == self.window
        &&& self.low_buffer@.len() == self.high_buffer@.len()
    }

    pub fn new(window: usize) -> (r: Self)
        requires
            window >= 1,
        ensures
            r.wf(),
            r@ == AroonState::init(window as nat),
    {
        AroonStreaming {
            window,
            high_buffer: Window::new(window),
            low_buffer: Window::new(window),
        }
    }

    /// Returns Aroon up and Aroon down.
    pub fn update(&mut self, high: Fp, low: Fp) -> (r: (Fp, Fp))
        requires
            old(self).wf(),
        ensures
            final(self).wf(),
            final(self)@.valid(),
            (final(self)@, r) == old(self)@.step(high, low),
    {
        self.high_buffer.push(high);
        self.low_buffer.push(low);
        if self.high_buffer.len() < self.window {
            (Fp(NAN), Fp(NAN))
        } else {
            let n = self.high_buffer.len();
            let max_high = max_of(&self.high_buffer, 0, n);
            let min_low = min_of(&self.low_buffer, 0, n);
            (
                aroon_from(self.window, &self.high_buffer, max_high),
                aroon_from(self.window, &self.low_buffer, min_low),
            )
        }
    }

    /// Returns the unit to the state it was made in.
    pub fn reset(&mut self)
        requires
            old(self).wf(),
        ensures
            final(self).wf(),
            final(self)@ == AroonState::init(old(self)@.window),
    {
        self.high_buffer.clear();
        self.low_buffer.clear();
    }
}

/// The Aroon as a step from state and input to state and output.
pub open spec fn aroon_unit() -> spec_fn(AroonState, (Fp, Fp)) -> (AroonState, (Fp, Fp)) {
    |s: AroonState, x: (Fp, Fp)| s.step(x.0, x.1)
}

/// Warm-up: a new Aroon gives nothing before its `window`-th bar.
pub proof fn lemma_aroon_warm_up(window: nat, inputs: Seq<(Fp, Fp)>, k: int)
    requires
        0 <= k < inputs.len(),
        k + 1 < window,
    ensures
        ({
            let o = run(aroon_unit(), AroonState::init(window), inputs).1[k];
            o.0 == Fp(NAN) && o.1 == Fp(NAN)
        }),
{
    lemma_quiet_before(
        aroon_unit(),
        |s: AroonState| s.window == window,
        |s: AroonState| s.highs.len(),
        |o: (Fp, Fp)| o.0 == Fp(NAN) && o.1 == Fp(NAN),
        window,
        AroonState::init(window),
        inputs,
        k,
    );
}

/// Reset idempotence: a unit that has seen `before`, is reset, and then
/// sees `replay` does what a new one does on `replay`.
pub proof fn lemma_aroon_reset_replays(window: nat, before: Seq<(Fp, Fp)>, replay: Seq<(Fp, Fp)>)
    ensures
        ({
            let new = AroonState::init(window);
            let s = run(aroon_unit(), new, before).0;
            run(aroon_unit(), AroonState::init(s.window), replay) == run(aroon_unit(), new, replay)
        }),
{
    lemma_reset_replays(
        aroon_unit(),
        |s: AroonState| AroonState::init(s.window),
        AroonState::init(window),
        before,
        replay,
    );
}

// ---------------------------------------------------------------------------
// Parabolic SAR
// ---------------------------------------------------------------------------

/// State of the parabolic stop-and-reverse: the trend, its acceleration
/// factor and extremes, the previous stop and bar, the last two stored
/// prices, and the number of bars seen.
pub struct PsarState {
    pub af_start: Fp,
    pub af_inc: Fp,
    pub af_max: Fp,
    pub up_trend: bool,
    pub acceleration_factor: Fp,
    pub up_trend_high: Fp,
    pub down_trend_low: Fp,
    pub prev_sar: Fp,
    pub prev_high: Fp,
    pub prev_low: Fp,
    pub buffer: Seq<Fp>,
    pub count: nat,
}

impl PsarState {
    /// The state of a new unit.
    pub open spec fn init(af_start: Fp, af_inc: Fp, af_max: Fp) -> PsarState {
        PsarState {
            af_start,
            af_inc,
            af_max,
            up_trend: true,
            acceleration_factor: af_start,
            up_trend_high: Fp(NAN),
            down_trend_low: Fp(NAN),
            prev_sar: Fp(NAN),
            prev_high: Fp(NAN),
            prev_low: Fp(NAN),
            buffer: Seq::empty(),
            count: 0,
        }
    }

    pub open spec fn valid(self) -> bool {
        self.buffer.len() <= 2
    }

    /// The acceleration factor after a new extreme: one increment more,
    /// capped at the maximum.
    pub open spec fn accelerated(self) -> Fp {
        self.acceleration_factor.add_spec(self.af_inc).min_spec(self.af_max)
    }

    /// One bar of an upward trend. The stop moves towards the trend's high.
    /// A low below it reverses the trend: the stop jumps to that high, the
    /// downward extreme is seeded by the low, and the factor starts over.
    /// Otherwise a new high accelerates, and the stop is held at or below
    /// the previous low.
    pub open spec fn rise(self, high: Fp, low: Fp) -> (PsarState, Fp) {
        let sar = self.prev_sar.add_spec(
            self.acceleration_factor.mul_spec(self.up_trend_high.sub_spec(self.prev_sar)),
        );
        if low.lt_spec(sar) {
            (
                PsarState {
                    up_trend: false,
                    down_trend_low: low,
                    acceleration_factor: self.af_start,
                    ..self
                },
                self.up_trend_high,
            )
        } else {
            let held = if self.prev_low.lt_spec(sar) {
                self.prev_low
            } else {
                sar
            };
            if high.gt_spec(self.up_trend_high) {
                (
                    PsarState {
                        up_trend_high: high,
                        acceleration_factor: self.accelerated(),
                        ..self
                    },
                    held,
                )
            } else {
                (self, held)
            }
        }
    }

    /// One bar of a downward trend, the mirror image of `rise`.
    pub open spec fn fall(self, high: Fp, low: Fp) -> (PsarState, Fp) {
        let sar = self.prev_sar.sub_spec(
            self.acceleration_factor.mul_spec(self.prev_sar.sub_spec(self.down_trend_low)),
        );
        if high.gt_spec(sar) {
            (
                PsarState {
                    up_trend: true,
                    up_trend_high: high,
                    acceleration_factor: self.af_start,
                    ..self
                },
                self.down_trend_low,
            )
        } else {
            let held = if self.prev_high.gt_spec(sar) {
                self.prev_high
            } else {
                sar
            };
            if low.lt_spec(self.down_trend_low) {
                (
                    PsarState {
                        down_trend_low: low,
                        acceleration_factor: self.accelerated(),
                        ..self
                    },
                    held,
                )
            } else {
                (self, held)
            }
        }
    }

    /// The first two bars are seed bars and give back the close: the first
    /// sets the stop and both extremes, the second only the previous bar.
    /// Each later bar runs the trend it is in, then records the stop, the
    /// bar, and the price on the stop's side.
    pub open spec fn step(self, high: Fp, low: Fp, close: Fp) -> (PsarState, Fp) {
        let count = bump(self.count);
        if count == 1 {
            (
                PsarState {
                    prev_sar: close,
                    up_trend_high: high,
                    down_trend_low: low,
                    prev_high: high,
                    prev_low: low,
                    count,
                    ..self
                },
                close,
            )
        } else if count == 2 {
            (PsarState { prev_high: high, prev_low: low, count, ..self }, close)
        } else {
            let (moved, sar) = if self.up_trend {
                self.rise(high, low)
            } else {
                self.fall(high, low)
            };
            let stored = if moved.up_trend {
                low
            } else {
                high
            };
            (
                PsarState {
                    prev_sar: sar,
                    prev_high: high,
                    prev_low: low,
                    buffer: slide(self.buffer, stored, 2),
                    count,
                    ..moved
                },
                sar,
            )
        }
    }
}

/// Streaming parabolic stop-and-reverse.
pub struct PSARStreaming {
    af_start: Fp,
    af_inc: Fp,
    af_max: Fp,
    up_trend: bool,
    acceleration_factor: Fp,
    up_trend_high: Fp,
    down_trend_low: Fp,
    prev_sar: Fp,
    prev_high: Fp,
    prev_low: Fp,
    buffer: Window,
    update_count: usize,
}

impl View for PSARStreaming {
    type V = PsarState;

    closed spec fn view(&self) -> PsarState {
        PsarState {
            af_start: self.af_start,
            af_inc: self.af_inc,
            af_max: self.af_max,
            up_trend: self.up_trend,
            acceleration_factor: self.acceleration_factor,
            up_trend_high: self.up_trend_high,
            down_trend_low: self.down_trend_low,
            prev_sar: self.prev_sar,
            prev_high: self.prev_high,
            prev_low: self.prev_low,
            buffer: self.buffer@,
            count: self.update_count as nat,
        }
    }
}

impl PSARStreaming {
    /// What the unit keeps true of its own fields between calls.
    pub closed spec fn wf(&self) -> bool {
        self.buffer.wf() && self.buffer.capacity() == 2
    }

    pub fn new(af_start: Fp, af_inc: Fp, af_max: Fp) -> (r: Self)
        ensures
            r.wf(),
            r@ == PsarState::init(af_start, af_inc, af_max),
    {
        PSARStreaming {
            af_start,
            af_inc,
            af_max,
            up_trend: true,
            acceleration_factor: af_start,
            up_trend_high: Fp(NAN),
            down_trend_low: Fp(NAN),
            prev_sar: Fp(NAN),
            prev_high: Fp(NAN),
            prev_low: Fp(NAN),
            buffer: Window::new(2),
            update_count: 0,
        }
    }

    pub fn update(&mut self, high: Fp, low: Fp, close: Fp) -> (r: Fp)
        requires
            old(self).wf(),
        ensures
            final(self).wf(),
            final(self)@.valid(),
            (final(self)@, r) == old(self)@.step(high, low, close),
    {
        self.update_count = bumped(self.update_count);
        if self.update_count == 1 {
            self.prev_sar = close;
            self.up_trend_high = high;
            self.down_trend_low = low;
            self.prev_high = high;
            self.prev_low = low;
            return close;
        }
        if self.update_count == 2 {
            self.prev_high = high;
            self.prev_low = low;
            return close;
        }
        let mut current_sar: Fp;
        let mut reversal = false;
        if self.up_trend {
            current_sar = self.prev_sar.add(
                self.acceleration_factor.mul(self.up_trend_high.sub(self.prev_sar)),
            );
            if low.lt(current_sar) {
                reversal = true;
                current_sar = self.up_trend_high;
                self.down_trend_low = low;
                self.acceleration_factor = self.af_start;
            } else {
                if high.gt(self.up_trend_high) {
                    self.up_trend_high = high;
                    self.acceleration_factor = self.acceleration_factor.add(self.af_inc).min(
                        self.af_max,
                    );
                }
                if self.prev_low.lt(current_sar) {
                    current_sar = self.prev_low;
                }
            }
        } else {
            current_sar = self.prev_sar.sub(
                self.acceleration_factor.mul(self.prev_sar.sub(self.down_trend_low)),
            );
            if high.gt(current_sar) {
                reversal = true;
                current_sar = self.down_trend_low;
                self.up_trend_high = high;
                self.acceleration_factor = self.af_start;
            } else {
                if low.lt(self.down_trend_low) {
                    self.down_trend_low = low;
                    self.acceleration_factor = self.acceleration_factor.add(self.af_inc).min(
                        self.af_max,
                    );
                }
                if self.prev_high.gt(current_sar) {
                    current_sar = self.prev_high;
                }
            }
        }
        self.up_trend = self.up_trend != reversal;
        self.prev_sar = current_sar;
        self.prev_high = high;
        self.prev_low = low;
        let store_val = if self.up_trend {
            low
        } else {
            high
        };
        self.buffer.push(store_val);
        current_sar
    }

    /// Returns the unit to the state it was made in.
    pub fn reset(&mut self)
        requires
            old(self).wf(),
        ensures
            final(self).wf(),
            final(self)@ == PsarState::init(
                old(self)@.af_start,
                old(self)@.af_inc,
                old(self)@.af_max,
            ),
    {
        self.up_trend = true;
        self.acceleration_factor = self.af_start;
        self.up_trend_high = Fp(NAN);
        self.down_trend_low = Fp(NAN);
        self.prev_sar = Fp(NAN);
        self.prev_high = Fp(NAN);
        self.prev_low = Fp(NAN);
        self.buffer.clear();
        self.update_count = 0;
    }
}

/// The parabolic stop-and-reverse as a step from state and input to state and output.
pub open spec fn psar_unit() -> spec_fn(PsarState, (Fp, Fp, Fp)) -> (PsarState, Fp) {
    |s: PsarState, x: (Fp, Fp, Fp)| s.step(x.0, x.1, x.2)
}

/// Reset idempotence: a unit that has seen `before`, is reset, and then
/// sees `replay` does what a new one does on `replay`.
pub proof fn lemma_psar_reset_replays(
    af_start: Fp,
    af_inc: Fp,
    af_max: Fp,
    before: Seq<(Fp, Fp, Fp)>,
    replay: Seq<(Fp, Fp, Fp)>,
)
    ensures
        ({
            let new = PsarState::init(af_start, af_inc, af_max);
            let s = run(psar_unit(), new, before).0;
            run(psar_unit(), PsarState::init(s.af_start, s.af_inc, s.af_max), replay)
                == run(psar_unit(), new, replay)
        }),
{
    lemma_reset_replays(
        psar_unit(),
        |s: PsarState| PsarState::init(s.af_start, s.af_inc, s.af_max),
        PsarState::init(af_start, af_inc, af_max),
        before,
        replay,
    );
}

// ---------------------------------------------------------------------------
// Simple moving average that tolerates undefined samples
// ---------------------------------------------------------------------------

/// State of the NaN-tolerant moving average: the last samples, the running
/// sum of those that are numbers, and the count of those that are not.
pub struct NanAwareSmaState {
    pub window: nat,
    pub buffer: Seq<Fp>,
    pub sum: Fp,
    pub nans: nat,
}

impl NanAwareSmaState {
    /// The state of a new unit.
    pub open spec fn init(window: nat) -> NanAwareSmaState {
        NanAwareSmaState { window, buffer: Seq::empty(), sum: Fp(ZERO), nans: 0 }
    }

    pub open spec fn valid(self) -> bool {
        self.window >= 1 && self.buffer.len() <= self.window && self.nans <= self.buffer.len()
    }

    /// A NaN sample takes a slot of the window but stays out of the sum.
    /// The average is defined once the window is full and holds no NaN.
    pub open spec fn step(self, value: Fp) -> (NanAwareSmaState, Fp) {
        let leaves = self.buffer.len() >= self.window;
        let (kept, kept_nans) = if leaves {
            if self.buffer[0].nan() {
                (self.sum, (self.nans - 1) as nat)
            } else {
                (self.sum.sub_spec(self.buffer[0]), self.nans)
            }
        } else {
            (self.sum, self.nans)
        };
        let (sum, nans) = if value.nan() {
            (kept, kept_nans + 1)
        } else {
            (kept.add_spec(value), kept_nans)
        };
        let buffer = slide(self.buffer, value, self.window);
        let out = if buffer.len() < self.window || nans > 0 {
            Fp(NAN)
        } else {
            sum.div_spec(of_nat(self.window))
        };
        (NanAwareSmaState { window: self.window, buffer, sum, nans }, out)
    }
}

/// The number of NaN samples among the first `n`.
pub open spec fn nan_count(s: Seq<Fp>, n: int) -> nat
    decreases n,
{
    if n <= 0 {
        0
    } else if s[n - 1].nan() {
        nan_count(s, n - 1) + 1
    } else {
        nan_count(s, n - 1)
    }
}

/// A moving average over a series that may itself start undefined.
pub struct NanAwareSMAStreaming {
    window: usize,
    buffer: Window,
    sum: Fp,
    nans: usize,
}

impl View for NanAwareSMAStreaming {
    type V = NanAwareSmaState;

    closed spec fn view(&self) -> NanAwareSmaState {
        NanAwareSmaState {
            window: self.window as nat,
            buffer: self.buffer@,
            sum: self.sum,
            nans: self.nans as nat,
        }
    }
}

proof fn lemma_nan_count_bound(s: Seq<Fp>, n: int)
    requires
        0 <= n,
    ensures
        nan_count(s, n) <= n,
    decreases n,
{
    if n > 0 {
        lemma_nan_count_bound(s, n - 1);
    }
}

proof fn lemma_nan_count_push(s: Seq<Fp>, x: Fp, n: int)
    requires
        0 <= n <= s.len(),
    ensures
        nan_count(s.push(x), n) == nan_count(s, n),
    decreases n,
{
    if n > 0 {
        lemma_nan_count_push(s, x, n - 1);
    }
}

proof fn lemma_nan_count_drop_first(s: Seq<Fp>, n: int)
    requires
        1 <= n <= s.len(),
    ensures
        nan_count(s.drop_first(), n - 1) + (if s[0].nan() {
            1nat
        } else {
            0nat
        }) == nan_count(s, n),
    decreases n,
{
    let t = s.drop_first();
    if n > 1 {
        lemma_nan_count_drop_first(s, n - 1);
        assert(t[n - 2] == s[n - 1]);
        assert(nan_count(t, n - 1) == nan_count(t, n - 2) + (if t[n - 2].nan() {
            1nat
        } else {
            0nat
        }));
    } else {
        assert(nan_count(s, 0) == 0);
        assert(nan_count(t, 0) == 0);
    }
}

impl NanAwareSMAStreaming {
    /// What the unit keeps true of its own fields between calls.
    pub closed spec fn wf(&self) -> bool {
        &&& self.window >= 1
        &&& self.buffer.wf()
        &&& self.buffer.capacity() == self.window
        &&& self.nans == nan_count(self.buffer@, self.buffer@.len() as int)
    }

    pub fn new(window: usize) -> (r: Self)
        requires
            window >= 1,
        ensures
            r.wf(),
            r@ == NanAwareSmaState::init(window as nat),
    {
        NanAwareSMAStreaming { window, buffer: Window::new(window), sum: Fp(ZERO), nans: 0 }
    }

    pub fn update(&mut self, value: Fp) -> (r: Fp)
        requires
            old(self).wf(),
        ensures
            final(self).wf(),
            final(self)@.valid(),
            (final(self)@, r) == old(self)@.step(value),
    {
        proof {
            let s = self.buffer@;
            let n = s.len() as int;
            lemma_nan_count_bound(s, n);
            lemma_nan_count_push(s, value, n);
            if n + 1 > self.window {
                lemma_nan_count_drop_first(s.push(value), n + 1);
            }
            let t = slide(s, value, self.window as nat);
            lemma_nan_count_bound(t, t.len() as int);
        }
        match self.buffer.push(value) {
            Some(oldest) => {
                if oldest.is_nan() {
                    self.nans = self.nans - 1;
                } else {
                    self.sum = self.sum.sub(oldest);
                }
            },
            None => {},
        }
        if value.is_nan() {
            self.nans = self.nans + 1;
        } else {
            self.sum = self.sum.add(value);
        }
        if self.buffer.len() < self.window || self.nans > 0 {
            Fp(NAN)
        } else {
            self.sum.div(Fp::from_usize(self.window))
        }
    }

    /// Returns the unit to the state it was made in.
    pub fn reset(&mut self)
        requires
            old(self).wf(),
        ensures
            final(self).wf(),
            final(self)@ == NanAwareSmaState::init(old(self)@.window),
    {
        self.buffer.clear();
        self.sum = Fp(ZERO);
        self.nans = 0;
    }
}

/// The NaN-tolerant moving average as a step from state and input to state and output.
pub open spec fn nan_aware_sma_unit() -> spec_fn(NanAwareSmaState, Fp) -> (NanAwareSmaState, Fp) {
    |s: NanAwareSmaState, x: Fp| s.step(x)
}

/// Warm-up: a new NaN-tolerant moving average gives nothing before its `window`-th sample.
pub proof fn lemma_nan_aware_sma_warm_up(window: nat, inputs: Seq<Fp>, k: int)
    requires
        0 <= k < inputs.len(),
        k + 1 < window,
    ensures
        run(nan_aware_sma_unit(), NanAwareSmaState::init(window), inputs).1[k] == Fp(NAN),
{
    lemma_quiet_before(
        nan_aware_sma_unit(),
        |s: NanAwareSmaState| s.window == window,
        |s: NanAwareSmaState| s.buffer.len(),
        |o: Fp| o == Fp(NAN),
        window,
        NanAwareSmaState::init(window),
        inputs,
        k,
    );
}

/// Reset idempotence: a unit that has seen `before`, is reset, and then
/// sees `replay` does what a new one does on `replay`.
pub proof fn lemma_nan_aware_sma_reset_replays(window: nat, before: Seq<Fp>, replay: Seq<Fp>)
    ensures
        ({
            let new = NanAwareSmaState::init(window);
            let s = run(nan_aware_sma_unit(), new, before).0;
            run(nan_aware_sma_unit(), NanAwareSmaState::init(s.window), replay)
                == run(nan_aware_sma_unit(), new, replay)
        }),
{
    lemma_reset_replays(
        nan_aware_sma_unit(),
        |s: NanAwareSmaState| NanAwareSmaState::init(s.window),
        NanAwareSmaState::init(window),
        before,
        replay,
    );
}

// ---------------------------------------------------------------------------
// Flat series
// ---------------------------------------------------------------------------

/// Degenerate input: on a window of typical prices that has become flat,
/// and whose mean is that flat price, the mean absolute deviation is zero
/// and the commodity channel index is zero.
pub proof fn lemma_flat_cci_is_zero(state: CciState, high: Fp, low: Fp, close: Fp)
    requires
        1 <= state.window < EXACT_LIMIT,
        typical(high, low, close).finite(),
        slide(state.buffer, typical(high, low, close), state.window).len() == state.window,
        flat(
            slide(state.buffer, typical(high, low, close), state.window),
            0,
            state.window as int,
            typical(high, low, close),
        ),
        sum(slide(state.buffer, typical(high, low, close), state.window)).div_spec(
            of_nat(state.window),
        ) == typical(high, low, close),
    ensures
        state.step(high, low, close).1 == Fp(ZERO),
{
    let tp = typical(high, low, close);
    lemma_flat_deviations(slide(state.buffer, tp, state.window), 0, state.window as int, tp);
    lemma_zero_over_length(state.window);
}

/// Tests whether the mean of `window` copies of `x` is exact. Where it is,
/// the commodity channel index is zero on every bar whose typical price is
/// `x` and that leaves the window holding `window` copies of `x`.
pub fn flat_cci_is_zero(x: Fp, window: usize) -> (ok: bool)
    ensures
        ok == flat_mean_exact(x, window as nat),
        ok ==> forall|state: CciState, high: Fp, low: Fp, close: Fp|
            state.window == window && typical(high, low, close) == x && slide(
                state.buffer,
                x,
                state.window,
            ) == flat_run(x, window as nat) ==> (#[trigger] state.step(high, low, close)).1 == Fp(
                ZERO,
            ),
{
    let ok = flat_mean_is_exact(x, window);
    proof {
        if ok {
            assert forall|state: CciState, high: Fp, low: Fp, close: Fp|
                state.window == window && typical(high, low, close) == x && slide(
                    state.buffer,
                    x,
                    state.window,
                ) == flat_run(x, window as nat) implies (#[trigger] state.step(
                high,
                low,
                close,
            )).1 == Fp(ZERO) by {
                lemma_flat_cci_is_zero(state, high, low, close);
            }
        }
    }
    ok
}

} // verus!
