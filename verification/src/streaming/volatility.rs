//! Streaming volatility indicators.

use vstd::prelude::*;
use crate::fp::{Fp, NAN, ZERO, ONE, TWO, HUNDRED, TRADING_DAYS, EXACT_LIMIT, of_nat};
use crate::series::{
    sum, sum_of, sq_dev_range, sq_dev_of, max_range, min_range, max_of, min_of, bump, bumped, flat,
    lemma_flat_deviations, lemma_zero_over_length, population_std, population_variance,
    population_variance_of, window_mean, window_mean_of, flat_run, flat_mean_exact,
    flat_mean_is_exact,
};
use crate::window::{Window, SamplesState, slide};
use crate::streaming::trend::{EMAStreaming, EmaState};
use crate::streaming::run::{
    run, lemma_quiet_before, lemma_reset_replays, lemma_run_at, lemma_run_keeps_on,
    lemma_count_after,
};
use crate::formulas::{
    log_return, true_range_after, true_range_step, usable_constant, wilder_alpha,
    wilder_smooth, wilder_smoothed, wilder_constant_is_usable,
};

verus! {

// ---------------------------------------------------------------------------
// Average true range
// ---------------------------------------------------------------------------

/// State of the average true range: the previous close, the smoothed range,
/// and the number of bars seen.
pub struct AtrState {
    pub window: nat,
    pub alpha: Fp,
    pub prev_close: Fp,
    pub current: Fp,
    pub count: nat,
}

impl AtrState {
    /// The state of a new unit.
    pub open spec fn init(window: nat) -> AtrState {
        AtrState {
            window,
            alpha: wilder_alpha(window),
            prev_close: Fp(NAN),
            current: Fp(NAN),
            count: 0,
        }
    }

    /// The true range of the bar: its height while there is no previous
    /// close.
    pub open spec fn range(self, high: Fp, low: Fp) -> Fp {
        if self.prev_close.nan() {
            high.sub_spec(low)
        } else {
            true_range_after(high, low, self.prev_close)
        }
    }

    /// The first range seeds the average; later ranges are smoothed into it
    /// with Wilder's constant. It is reported once `window` bars have been
    /// seen.
    pub open spec fn step(self, high: Fp, low: Fp, close: Fp) -> (AtrState, Fp) {
        let count = bump(self.count);
        let tr = self.range(high, low);
        let current = if self.current.nan() {
            tr
        } else {
            wilder_smooth(self.alpha, tr, self.current)
        };
        let out = if count >= self.window {
            current
        } else {
            Fp(NAN)
        };
        (AtrState { prev_close: close, current, count, ..self }, out)
    }
}

/// Streaming average true range.
pub struct ATRStreaming {
    window: usize,
    alpha: Fp,
    prev_close: Fp,
    current_value: Fp,
    update_count: usize,
}

impl View for ATRStreaming {
    type V = AtrState;

    closed spec fn view(&self) -> AtrState {
        AtrState {
            window: self.window as nat,
            alpha: self.alpha,
            prev_close: self.prev_close,
            current: self.current_value,
            count: self.update_count as nat,
        }
    }
}

impl ATRStreaming {
    /// What the unit keeps true of its own fields between calls.
    pub closed spec fn wf(&self) -> bool {
        &&& self.window >= 1
        &&& self.alpha == wilder_alpha(self.window as nat)
    }

    pub fn new(window: usize) -> (r: Self)
        requires
            window >= 1,
        ensures
            r.wf(),
            r@ == AtrState::init(window as nat),
    {
        ATRStreaming {
            window,
            alpha: Fp(ONE).div(Fp::from_usize(window)),
            prev_close: Fp(NAN),
            current_value: Fp(NAN),
            update_count: 0,
        }
    }

    pub fn update(&mut self, high: Fp, low: Fp, close: Fp) -> (r: Fp)
        requires
            old(self).wf(),
        ensures
            final(self).wf(),
            (final(self)@, r) == old(self)@.step(high, low, close),
    {
        self.update_count = bumped(self.update_count);
        let tr = if self.prev_close.is_nan() {
            high.sub(low)
        } else {
            true_range_step(high, low, self.prev_close)
        };
        if self.current_value.is_nan() {
            self.current_value = tr;
        } else {
            self.current_value = wilder_smoothed(self.alpha, tr, self.current_value);
        }
        self.prev_close = close;
        if self.update_count >= self.window {
            self.current_value
        } else {
            Fp(NAN)
        }
    }

    /// Returns the unit to the state it was made in.
    pub fn reset(&mut self)
        requires
            old(self).wf(),
        ensures
            final(self).wf(),
            final(self)@.alpha == old(self)@.alpha,
            final(self)@ == AtrState::init(old(self)@.window),
    {
        self.prev_close = Fp(NAN);
        self.current_value = Fp(NAN);
        self.update_count = 0;
    }
}

/// The average true range as a step from state and input to state and output.
pub open spec fn atr_unit() -> spec_fn(AtrState, (Fp, Fp, Fp)) -> (AtrState, Fp) {
    |s: AtrState, x: (Fp, Fp, Fp)| s.step(x.0, x.1, x.2)
}

/// Warm-up: a new average true range gives nothing before its `window`-th bar.
pub proof fn lemma_atr_warm_up(window: nat, inputs: Seq<(Fp, Fp, Fp)>, k: int)
    requires
        0 <= k < inputs.len(),
        k + 1 < window,
    ensures
        run(atr_unit(), AtrState::init(window), inputs).1[k] == Fp(NAN),
{
    lemma_quiet_before(
        atr_unit(),
        |s: AtrState| s.window == window,
        |s: AtrState| s.count,
        |o: Fp| o == Fp(NAN),
        window,
        AtrState::init(window),
        inputs,
        k,
    );
}

/// Reset idempotence: a unit that has seen `before`, is reset, and then
/// sees `replay` does what a new one does on `replay`.
pub proof fn lemma_atr_reset_replays(
    window: nat,
    before: Seq<(Fp, Fp, Fp)>,
    replay: Seq<(Fp, Fp, Fp)>,
)
    ensures
        ({
            let new = AtrState::init(window);
            let s = run(atr_unit(), new, before).0;
            run(atr_unit(), AtrState::init(s.window), replay) == run(atr_unit(), new, replay)
        }),
{
    lemma_reset_replays(
        atr_unit(),
        |s: AtrState| AtrState::init(s.window),
        AtrState::init(window),
        before,
        replay,
    );
}

// ---------------------------------------------------------------------------
// Bollinger bands
// ---------------------------------------------------------------------------

/// State of the Bollinger bands: the last samples.
pub struct BollingerBandsState {
    pub window: nat,
    pub std_dev: Fp,
    pub buffer: Seq<Fp>,
}

impl BollingerBandsState {
    /// The state of a new unit.
    pub open spec fn init(window: nat, std_dev: Fp) -> BollingerBandsState {
        BollingerBandsState { window, std_dev, buffer: Seq::empty() }
    }

    pub open spec fn valid(self) -> bool {
        self.window >= 1 && self.buffer.len() <= self.window
    }

    /// Undefined until `window` samples have arrived. Then the middle band is
    /// the window's mean, and the outer bands lie `std_dev` population
    /// standard deviations above and below it.
    pub open spec fn step(self, value: Fp) -> (BollingerBandsState, (Fp, Fp, Fp)) {
        let buffer = slide(self.buffer, value, self.window);
        let out = if buffer.len() < self.window {
            (Fp(NAN), Fp(NAN), Fp(NAN))
        } else {
            let mean = window_mean(buffer, self.window);
            let width = self.std_dev.mul_spec(population_std(buffer, self.window));
            (mean.add_spec(width), mean, mean.sub_spec(width))
        };
        (BollingerBandsState { buffer, ..self }, out)
    }
}

/// Streaming Bollinger bands.
pub struct BollingerBandsStreaming {
    window: usize,
    std_dev: Fp,
    buffer: Window,
}

impl View for BollingerBandsStreaming {
    type V = BollingerBandsState;

    closed spec fn view(&self) -> BollingerBandsState {
        BollingerBandsState {
            window: self.window as nat,
            std_dev: self.std_dev,
            buffer: self.buffer@,
        }
    }
}

impl BollingerBandsStreaming {
    /// What the unit keeps true of its own fields between calls.
    pub closed spec fn wf(&self) -> bool {
        &&& self.window >= 1
        &&& self.buffer.wf()
        &&& self.buffer.capacity() == self.window
    }

    pub fn new(window: usize, std_dev: Fp) -> (r: Self)
        requires
            window >= 1,
        ensures
            r.wf(),
            r@ == BollingerBandsState::init(window as nat, std_dev),
    {
        BollingerBandsStreaming { window, std_dev, buffer: Window::new(window) }
    }

    /// Returns the upper, middle and lower band.
    pub fn update(&mut self, value: Fp) -> (r: (Fp, Fp, Fp))
        requires
            old(self).wf(),
        ensures
            final(self).wf(),
            final(self)@.valid(),
            (final(self)@, r) == old(self)@.step(value),
    {
        self.buffer.push(value);
        if self.buffer.len() < self.window {
            (Fp(NAN), Fp(NAN), Fp(NAN))
        } else {
            let mean = window_mean_of(&self.buffer, self.window);
            let std = population_variance_of(&self.buffer, self.window).sqrt();
            let upper = mean.add(self.std_dev.mul(std));
            let lower = mean.sub(self.std_dev.mul(std));
            (upper, mean, lower)
        }
    }

    /// Returns the unit to the state it was made in.
    pub fn reset(&mut self)
        requires
            old(self).wf(),
        ensures
            final(self).wf(),
            final(self)@ == BollingerBandsState::init(old(self)@.window, old(self)@.std_dev),
    {
        self.buffer.clear();
    }
}

/// The Bollinger bands as a step from state and input to state and output.
pub open spec fn bollinger_unit() -> spec_fn(BollingerBandsState, Fp) -> (
    BollingerBandsState,
    (Fp, Fp, Fp),
) {
    |s: BollingerBandsState, x: Fp| s.step(x)
}

/// Warm-up: a new Bollinger bands gives nothing before its `window`-th sample.
pub proof fn lemma_bollinger_warm_up(window: nat, std_dev: Fp, inputs: Seq<Fp>, k: int)
    requires
        0 <= k < inputs.len(),
        k + 1 < window,
    ensures
        ({
            let o = run(bollinger_unit(), BollingerBandsState::init(window, std_dev), inputs).1[k];
            o.0 == Fp(NAN) && o.1 == Fp(NAN) && o.2 == Fp(NAN)
        }),
{
    lemma_quiet_before(
        bollinger_unit(),
        |s: BollingerBandsState| s.window == window,
        |s: BollingerBandsState| s.buffer.len(),
        |o: (Fp, Fp, Fp)| o.0 == Fp(NAN) && o.1 == Fp(NAN) && o.2 == Fp(NAN),
        window,
        BollingerBandsState::init(window, std_dev),
        inputs,
        k,
    );
}

/// Reset idempotence: a unit that has seen `before`, is reset, and then
/// sees `replay` does what a new one does on `replay`.
pub proof fn lemma_bollinger_reset_replays(
    window: nat,
    std_dev: Fp,
    before: Seq<Fp>,
    replay: Seq<Fp>,
)
    ensures
        ({
            let new = BollingerBandsState::init(window, std_dev);
            let s = run(bollinger_unit(), new, before).0;
            run(bollinger_unit(), BollingerBandsState::init(s.window, s.std_dev), replay)
                == run(bollinger_unit(), new, replay)
        }),
{
    lemma_reset_replays(
        bollinger_unit(),
        |s: BollingerBandsState| BollingerBandsState::init(s.window, s.std_dev),
        BollingerBandsState::init(window, std_dev),
        before,
        replay,
    );
}

// ---------------------------------------------------------------------------
// Keltner channel
// ---------------------------------------------------------------------------

/// State of the Keltner channel: an average of the close and an average
/// true range.
pub struct KeltnerChannelState {
    pub multiplier: Fp,
    pub ema: EmaState,
    pub atr: AtrState,
}

impl KeltnerChannelState {
    /// The state of a new unit.
    pub open spec fn init(window: nat, atr_period: nat, multiplier: Fp) -> KeltnerChannelState {
        KeltnerChannelState {
            multiplier,
            ema: EmaState::init(window),
            atr: AtrState::init(atr_period),
        }
    }

    /// The middle band is the average of the close; the outer bands lie
    /// `multiplier` average true ranges above and below it. All three are
    /// undefined while either part is.
    pub open spec fn step(self, high: Fp, low: Fp, close: Fp) -> (
        KeltnerChannelState,
        (Fp, Fp, Fp),
    ) {
        let (ema, e) = self.ema.step(close);
        let (atr, a) = self.atr.step(high, low, close);
        let out = if e.nan() || a.nan() {
            (Fp(NAN), Fp(NAN), Fp(NAN))
        } else {
            (e.add_spec(self.multiplier.mul_spec(a)), e, e.sub_spec(self.multiplier.mul_spec(a)))
        };
        (KeltnerChannelState { multiplier: self.multiplier, ema, atr }, out)
    }
}

/// Streaming Keltner channel.
pub struct KeltnerChannelStreaming {
    multiplier: Fp,
    ema: EMAStreaming,
    atr: ATRStreaming,
}

impl View for KeltnerChannelStreaming {
    type V = KeltnerChannelState;

    closed spec fn view(&self) -> KeltnerChannelState {
        KeltnerChannelState { multiplier: self.multiplier, ema: self.ema@, atr: self.atr@ }
    }
}

impl KeltnerChannelStreaming {
    /// What the unit keeps true of its own fields between calls.
    pub closed spec fn wf(&self) -> bool {
        self.ema.wf() && self.atr.wf()
    }

    pub fn new(window: usize, atr_period: usize, multiplier: Fp) -> (r: Self)
        requires
            window >= 1,
            atr_period >= 1,
        ensures
            r.wf(),
            r@ == KeltnerChannelState::init(window as nat, atr_period as nat, multiplier),
    {
        KeltnerChannelStreaming {
            multiplier,
            ema: EMAStreaming::new(window),
            atr: ATRStreaming::new(atr_period),
        }
    }

    /// Returns the upper, middle and lower band.
    pub fn update(&mut self, high: Fp, low: Fp, close: Fp) -> (r: (Fp, Fp, Fp))
        requires
            old(self).wf(),
        ensures
            final(self).wf(),
            (final(self)@, r) == old(self)@.step(high, low, close),
    {
        let ema_value = self.ema.update(close);
        let atr_value = self.atr.update(high, low, close);
        if ema_value.is_nan() || atr_value.is_nan() {
            (Fp(NAN), Fp(NAN), Fp(NAN))
        } else {
            let upper = ema_value.add(self.multiplier.mul(atr_value));
            let lower = ema_value.sub(self.multiplier.mul(atr_value));
            (upper, ema_value, lower)
        }
    }

    /// Returns the unit to the state it was made in.
    pub fn reset(&mut self)
        requires
            old(self).wf(),
        ensures
            final(self).wf(),
            final(self)@.ema.alpha == old(self)@.ema.alpha,
            final(self)@.atr.alpha == old(self)@.atr.alpha,
            final(self)@ == KeltnerChannelState::init(
                old(self)@.ema.window,
                old(self)@.atr.window,
                old(self)@.multiplier,
            ),
    {
        self.ema.reset();
        self.atr.reset();
    }
}

/// The Keltner channel as a step from state and input to state and output.
pub open spec fn keltner_unit() -> spec_fn(KeltnerChannelState, (Fp, Fp, Fp)) -> (
    KeltnerChannelState,
    (Fp, Fp, Fp),
) {
    |s: KeltnerChannelState, x: (Fp, Fp, Fp)| s.step(x.0, x.1, x.2)
}

/// Warm-up: a new Keltner channel gives nothing before its `atr_period`-th bar.
pub proof fn lemma_keltner_warm_up(
    window: nat,
    atr_period: nat,
    multiplier: Fp,
    inputs: Seq<(Fp, Fp, Fp)>,
    k: int,
)
    requires
        0 <= k < inputs.len(),
        k + 1 < atr_period,
    ensures
        ({
            let new = KeltnerChannelState::init(window, atr_period, multiplier);
            let o = run(keltner_unit(), new, inputs).1[k];
            o.0 == Fp(NAN) && o.1 == Fp(NAN) && o.2 == Fp(NAN)
        }),
{
    lemma_quiet_before(
        keltner_unit(),
        |s: KeltnerChannelState| s.atr.window == atr_period,
        |s: KeltnerChannelState| s.atr.count,
        |o: (Fp, Fp, Fp)| o.0 == Fp(NAN) && o.1 == Fp(NAN) && o.2 == Fp(NAN),
        atr_period,
        KeltnerChannelState::init(window, atr_period, multiplier),
        inputs,
        k,
    );
}

/// Reset idempotence: a unit that has seen `before`, is reset, and then
/// sees `replay` does what a new one does on `replay`.
pub proof fn lemma_keltner_reset_replays(
    window: nat,
    atr_period: nat,
    multiplier: Fp,
    before: Seq<(Fp, Fp, Fp)>,
    replay: Seq<(Fp, Fp, Fp)>,
)
    ensures
        ({
            let new = KeltnerChannelState::init(window, atr_period, multiplier);
            let s = run(keltner_unit(), new, before).0;
            run(
                keltner_unit(),
                KeltnerChannelState::init(
                    s.ema.window,
                    s.atr.window,
                    s.multiplier,
                ),
                replay,
            ) == run(keltner_unit(), new, replay)
        }),
{
    lemma_reset_replays(
        keltner_unit(),
        |s: KeltnerChannelState|
            KeltnerChannelState::init(
                s.ema.window,
                s.atr.window,
                s.multiplier,
            ),
        KeltnerChannelState::init(window, atr_period, multiplier),
        before,
        replay,
    );
}

// ---------------------------------------------------------------------------
// Donchian channel, rolling range
// ---------------------------------------------------------------------------

/// State of an indicator over the last highs and lows.
pub struct HighLowState {
    pub window: nat,
    pub highs: Seq<Fp>,
    pub lows: Seq<Fp>,
}

impl HighLowState {
    /// The state of a new unit.
    pub open spec fn init(window: nat) -> HighLowState {
        HighLowState { window, highs: Seq::empty(), lows: Seq::empty() }
    }

    pub open spec fn valid(self) -> bool {
        &&& self.window >= 1
        &&& self.highs.len() <= self.window
        &&& self.lows.len() == self.highs.len()
    }

    pub open spec fn pushed(self, high: Fp, low: Fp) -> HighLowState {
        HighLowState {
            window: self.window,
            highs: slide(self.highs, high, self.window),
            lows: slide(self.lows, low, self.window),
        }
    }

    /// The highest high held.
    pub open spec fn top(self) -> Fp {
        max_range(self.highs, 0, self.highs.len() as int)
    }

    /// The lowest low held.
    pub open spec fn bottom(self) -> Fp {
        min_range(self.lows, 0, self.lows.len() as int)
    }

    /// Donchian channel: undefined until `window` bars have arrived; then
    /// the highest high, the lowest low, and their mean between them.
    pub open spec fn donchian_step(self, high: Fp, low: Fp) -> (HighLowState, (Fp, Fp, Fp)) {
        let next = self.pushed(high, low);
        let out = if next.highs.len() < self.window {
            (Fp(NAN), Fp(NAN), Fp(NAN))
        } else {
            (next.top(), next.top().add_spec(next.bottom()).div_spec(Fp(TWO)), next.bottom())
        };
        (next, out)
    }

    /// Rolling range: undefined until `window` bars have arrived; then the
    /// highest high less the lowest low.
    pub open spec fn range_step(self, high: Fp, low: Fp) -> (HighLowState, Fp) {
        let next = self.pushed(high, low);
        let out = if next.highs.len() < self.window {
            Fp(NAN)
        } else {
            next.top().sub_spec(next.bottom())
        };
        (next, out)
    }
}

/// Streaming Donchian channel.
pub struct DonchianChannelStreaming {
    window: usize,
    high_buffer: Window,
    low_buffer: Window,
}

impl View for DonchianChannelStreaming {
    type V = HighLowState;

    closed spec fn view(&self) -> HighLowState {
        HighLowState {
            window: self.window as nat,
            highs: self.high_buffer@,
            lows: self.low_buffer@,
        }
    }
}

impl DonchianChannelStreaming {
    /// What the unit keeps true of its own fields between calls.
    pub closed spec fn wf(&self) -> bool {
        &&& self.window >= 1
        &&& self.high_buffer.wf()
        &&& self.low_buffer.wf()
        &&& self.high_buffer.capacity() == self.window
        &&& self.low_buffer.capacity() == self.window
        &&& self.low_buffer@.len() == self.high_buffer@.len()
    }

    pub fn new(window: usize) -> (r: Self)
        requires
            window >= 1,
        ensures
            r.wf(),
            r@ == HighLowState::init(window as nat),
    {
        DonchianChannelStreaming {
            window,
            high_buffer: Window::new(window),
            low_buffer: Window::new(window),
        }
    }

    /// Returns the upper, middle and lower band.
    pub fn update(&mut self, high: Fp, low: Fp) -> (r: (Fp, Fp, Fp))
        requires
            old(self).wf(),
        ensures
            final(self).wf(),
            final(self)@.valid(),
            (final(self)@, r) == old(self)@.donchian_step(high, low),
    {
        self.high_buffer.push(high);
        self.low_buffer.push(low);
        if self.high_buffer.len() < self.window {
            (Fp(NAN), Fp(NAN), Fp(NAN))
        } else {
            let n = self.high_buffer.len();
            let upper = max_of(&self.high_buffer, 0, n);
            let lower = min_of(&self.low_buffer, 0, n);
            let middle = upper.add(lower).div(Fp(TWO));
            (upper, middle, lower)
        }
    }

    /// Returns the unit to the state it was made in.
    pub fn reset(&mut self)
        requires
            old(self).wf(),
        ensures
            final(self).wf(),
            final(self)@ == HighLowState::init(old(self)@.window),
    {
        self.high_buffer.clear();
        self.low_buffer.clear();
    }
}

/// The Donchian channel as a step from state and input to state and output.
pub open spec fn donchian_unit() -> spec_fn(HighLowState, (Fp, Fp)) -> (
    HighLowState,
    (Fp, Fp, Fp),
) {
    |s: HighLowState, x: (Fp, Fp)| s.donchian_step(x.0, x.1)
}

/// Warm-up: a new Donchian channel gives nothing before its `window`-th bar.
pub proof fn lemma_donchian_warm_up(window: nat, inputs: Seq<(Fp, Fp)>, k: int)
    requires
        0 <= k < inputs.len(),
        k + 1 < window,
    ensures
        ({
            let o = run(donchian_unit(), HighLowState::init(window), inputs).1[k];
            o.0 == Fp(NAN) && o.1 == Fp(NAN) && o.2 == Fp(NAN)
        }),
{
    lemma_quiet_before(
        donchian_unit(),
        |s: HighLowState| s.window == window,
        |s: HighLowState| s.highs.len(),
        |o: (Fp, Fp, Fp)| o.0 == Fp(NAN) && o.1 == Fp(NAN) && o.2 == Fp(NAN),
        window,
        HighLowState::init(window),
        inputs,
        k,
    );
}

/// Reset idempotence: a unit that has seen `before`, is reset, and then
/// sees `replay` does what a new one does on `replay`.
pub proof fn lemma_donchian_reset_replays(window: nat, before: Seq<(Fp, Fp)>, replay: Seq<(Fp, Fp)>)
    ensures
        ({
            let new = HighLowState::init(window);
            let s = run(donchian_unit(), new, before).0;
            run(donchian_unit(), HighLowState::init(s.window), replay)
                == run(donchian_unit(), new, replay)
        }),
{
    lemma_reset_replays(
        donchian_unit(),
        |s: HighLowState| HighLowState::init(s.window),
        HighLowState::init(window),
        before,
        replay,
    );
}

/// Streaming rolling range.
pub struct RangeStreaming {
    window: usize,
    high_buffer: Window,
    low_buffer: Window,
}

impl View for RangeStreaming {
    type V = HighLowState;

    closed spec fn view(&self) -> HighLowState {
        HighLowState {
            window: self.window as nat,
            highs: self.high_buffer@,
            lows: self.low_buffer@,
        }
    }
}

impl RangeStreaming {
    /// What the unit keeps true of its own fields between calls.
    pub closed spec fn wf(&self) -> bool {
        &&& self.window >= 1
        &&& self.high_buffer.wf()
        &&& self.low_buffer.wf()
        &&& self.high_buffer.capacity() == self.window
        &&& self.low_buffer.capacity() == self.window
        &&& self.low_buffer@.len() == self.high_buffer@.len()
    }

    pub fn new(window: usize) -> (r: Self)
        requires
            window >= 1,
        ensures
            r.wf(),
            r@ == HighLowState::init(window as nat),
    {
        RangeStreaming { window, high_buffer: Window::new(window), low_buffer: Window::new(window) }
    }

    pub fn update(&mut self, high: Fp, low: Fp) -> (r: Fp)
        requires
            old(self).wf(),
        ensures
            final(self).wf(),
            final(self)@.valid(),
            (final(self)@, r) == old(self)@.range_step(high, low),
    {
        self.high_buffer.push(high);
        self.low_buffer.push(low);
        if self.high_buffer.len() < self.window {
            Fp(NAN)
        } else {
            let n = self.high_buffer.len();
            let max_high = max_of(&self.high_buffer, 0, n);
            let min_low = min_of(&self.low_buffer, 0, n);
            max_high.sub(min_low)
        }
    }

    /// Returns the unit to the state it was made in.
    pub fn reset(&mut self)
        requires
            old(self).wf(),
        ensures
            final(self).wf(),
            final(self)@ == HighLowState::init(old(self)@.window),
    {
        self.high_buffer.clear();
        self.low_buffer.clear();
    }
}

/// The rolling range as a step from state and input to state and output.
pub open spec fn range_unit() -> spec_fn(HighLowState, (Fp, Fp)) -> (HighLowState, Fp) {
    |s: HighLowState, x: (Fp, Fp)| s.range_step(x.0, x.1)
}

/// Warm-up: a new rolling range gives nothing before its `window`-th bar.
pub proof fn lemma_range_warm_up(window: nat, inputs: Seq<(Fp, Fp)>, k: int)
    requires
        0 <= k < inputs.len(),
        k + 1 < window,
    ensures
        run(range_unit(), HighLowState::init(window), inputs).1[k] == Fp(NAN),
{
    lemma_quiet_before(
        range_unit(),
        |s: HighLowState| s.window == window,
        |s: HighLowState| s.highs.len(),
        |o: Fp| o == Fp(NAN),
        window,
        HighLowState::init(window),
        inputs,
        k,
    );
}

/// Reset idempotence: a unit that has seen `before`, is reset, and then
/// sees `replay` does what a new one does on `replay`.
pub proof fn lemma_range_reset_replays(window: nat, before: Seq<(Fp, Fp)>, replay: Seq<(Fp, Fp)>)
    ensures
        ({
            let new = HighLowState::init(window);
            let s = run(range_unit(), new, before).0;
            run(range_unit(), HighLowState::init(s.window), replay)
                == run(range_unit(), new, replay)
        }),
{
    lemma_reset_replays(
        range_unit(),
        |s: HighLowState| HighLowState::init(s.window),
        HighLowState::init(window),
        before,
        replay,
    );
}

// ---------------------------------------------------------------------------
// Ulcer index
// ---------------------------------------------------------------------------

/// The squared percentage by which the sample at `i` lies below the highest
/// sample up to it; zero for the first sample and where that highest sample
/// is not positive.
pub open spec fn drawdown_sq(s: Seq<Fp>, i: int) -> Fp {
    let peak = max_range(s, 0, i + 1);
    if i >= 1 && peak.gt_spec(Fp(ZERO)) {
        s[i].sub_spec(peak).div_spec(peak).mul_spec(Fp(HUNDRED)).sq_spec()
    } else {
        Fp(ZERO)
    }
}

/// The squared drawdowns of the first `n` samples, added up.
pub open spec fn drawdown_sq_sum(s: Seq<Fp>, n: int) -> Fp
    decreases n,
{
    if n <= 0 {
        Fp(ZERO)
    } else {
        drawdown_sq_sum(s, n - 1).add_spec(drawdown_sq(s, n - 1))
    }
}

/// The ulcer index of a run of prices: the root of their mean squared
/// drawdown.
pub open spec fn ulcer(s: Seq<Fp>) -> Fp {
    drawdown_sq_sum(s, s.len() as int).div_spec(of_nat(s.len())).sqrt_spec()
}

pub fn ulcer_of<S: crate::series::Series + ?Sized>(s: &S) -> (r: Fp)
    ensures
        r == ulcer(s.seq()),
{
    let n = s.length();
    let mut acc = Fp(ZERO);
    let mut peak = Fp(crate::fp::NEG_INF);
    let mut i: usize = 0;
    while i < n
        invariant
            i <= n,
            n == s.seq().len(),
            acc == drawdown_sq_sum(s.seq(), i as int),
            peak == max_range(s.seq(), 0, i as int),
        decreases n - i,
    {
        let x = s.at(i);
        peak = peak.max(x);
        let term = if i >= 1 && peak.gt(Fp(ZERO)) {
            x.sub(peak).div(peak).mul(Fp(HUNDRED)).sq()
        } else {
            Fp(ZERO)
        };
        acc = acc.add(term);
        i = i + 1;
    }
    acc.div(Fp::from_usize(n)).sqrt()
}

impl SamplesState {
    /// Ulcer index: undefined until `window` samples have arrived.
    pub open spec fn ulcer_step(self, value: Fp) -> (SamplesState, Fp) {
        let next = self.pushed(value);
        let out = if next.buffer.len() < self.window {
            Fp(NAN)
        } else {
            ulcer(next.buffer)
        };
        (next, out)
    }

    /// Population standard deviation: undefined until `window` samples have
    /// arrived.
    pub open spec fn std_step(self, value: Fp) -> (SamplesState, Fp) {
        let next = self.pushed(value);
        let out = if next.buffer.len() < self.window {
            Fp(NAN)
        } else {
            population_std(next.buffer, self.window)
        };
        (next, out)
    }

    /// Population variance: undefined until `window` samples have arrived.
    pub open spec fn variance_step(self, value: Fp) -> (SamplesState, Fp) {
        let next = self.pushed(value);
        let out = if next.buffer.len() < self.window {
            Fp(NAN)
        } else {
            population_variance(next.buffer, self.window)
        };
        (next, out)
    }
}

/// Streaming ulcer index.
pub struct UlcerIndexStreaming {
    window: usize,
    close_buffer: Window,
}

impl View for UlcerIndexStreaming {
    type V = SamplesState;

    closed spec fn view(&self) -> SamplesState {
        SamplesState { window: self.window as nat, buffer: self.close_buffer@ }
    }
}

impl UlcerIndexStreaming {
    /// What the unit keeps true of its own fields between calls.
    pub closed spec fn wf(&self) -> bool {
        &&& self.window >= 1
        &&& self.close_buffer.wf()
        &&& self.close_buffer.capacity() == self.window
    }

    pub fn new(window: usize) -> (r: Self)
        requires
            window >= 1,
        ensures
            r.wf(),
            r@ == SamplesState::init(window as nat),
    {
        UlcerIndexStreaming { window, close_buffer: Window::new(window) }
    }

    pub fn update(&mut self, value: Fp) -> (r: Fp)
        requires
            old(self).wf(),
        ensures
            final(self).wf(),
            final(self)@.valid(),
            (final(self)@, r) == old(self)@.ulcer_step(value),
    {
        self.close_buffer.push(value);
        if self.close_buffer.len() < self.window {
            Fp(NAN)
        } else {
            ulcer_of(&self.close_buffer)
        }
    }

    /// Returns the unit to the state it was made in.
    pub fn reset(&mut self)
        requires
            old(self).wf(),
        ensures
            final(self).wf(),
            final(self)@ == SamplesState::init(old(self)@.window),
    {
        self.close_buffer.clear();
    }
}

/// The ulcer index as a step from state and input to state and output.
pub open spec fn ulcer_unit() -> spec_fn(SamplesState, Fp) -> (SamplesState, Fp) {
    |s: SamplesState, x: Fp| s.ulcer_step(x)
}

/// Warm-up: a new ulcer index gives nothing before its `window`-th sample.
pub proof fn lemma_ulcer_warm_up(window: nat, inputs: Seq<Fp>, k: int)
    requires
        0 <= k < inputs.len(),
        k + 1 < window,
    ensures
        run(ulcer_unit(), SamplesState::init(window), inputs).1[k] == Fp(NAN),
{
    lemma_quiet_before(
        ulcer_unit(),
        |s: SamplesState| s.window == window,
        |s: SamplesState| s.buffer.len(),
        |o: Fp| o == Fp(NAN),
        window,
        SamplesState::init(window),
        inputs,
        k,
    );
}

/// Reset idempotence: a unit that has seen `before`, is reset, and then
/// sees `replay` does what a new one does on `replay`.
pub proof fn lemma_ulcer_reset_replays(window: nat, before: Seq<Fp>, replay: Seq<Fp>)
    ensures
        ({
            let new = SamplesState::init(window);
            let s = run(ulcer_unit(), new, before).0;
            run(ulcer_unit(), SamplesState::init(s.window), replay)
                == run(ulcer_unit(), new, replay)
        }),
{
    lemma_reset_replays(
        ulcer_unit(),
        |s: SamplesState| SamplesState::init(s.window),
        SamplesState::init(window),
        before,
        replay,
    );
}

// ---------------------------------------------------------------------------
// Rolling standard deviation and variance
// ---------------------------------------------------------------------------

/// Streaming rolling standard deviation.
pub struct StandardDeviationStreaming {
    window: usize,
    buffer: Window,
}

impl View for StandardDeviationStreaming {
    type V = SamplesState;

    closed spec fn view(&self) -> SamplesState {
        SamplesState { window: self.window as nat, buffer: self.buffer@ }
    }
}

impl StandardDeviationStreaming {
    /// What the unit keeps true of its own fields between calls.
    pub closed spec fn wf(&self) -> bool {
        &&& self.window >= 1
        &&& self.buffer.wf()
        &&& self.buffer.capacity() == self.window
    }

    pub fn new(window: usize) -> (r: Self)
        requires
            window >= 1,
        ensures
            r.wf(),
            r@ == SamplesState::init(window as nat),
    {
        StandardDeviationStreaming { window, buffer: Window::new(window) }
    }

    pub fn update(&mut self, value: Fp) -> (r: Fp)
        requires
            old(self).wf(),
        ensures
            final(self).wf(),
            final(self)@.valid(),
            (final(self)@, r) == old(self)@.std_step(value),
    {
        self.buffer.push(value);
        if self.buffer.len() < self.window {
            Fp(NAN)
        } else {
            population_variance_of(&self.buffer, self.window).sqrt()
        }
    }

    /// Returns the unit to the state it was made in.
    pub fn reset(&mut self)
        requires
            old(self).wf(),
        ensures
            final(self).wf(),
            final(self)@ == SamplesState::init(old(self)@.window),
    {
        self.buffer.clear();
    }
}

/// The rolling standard deviation as a step from state and input to state and output.
pub open spec fn std_unit() -> spec_fn(SamplesState, Fp) -> (SamplesState, Fp) {
    |s: SamplesState, x: Fp| s.std_step(x)
}

/// Warm-up: a new rolling standard deviation gives nothing before its `window`-th sample.
pub proof fn lemma_std_warm_up(window: nat, inputs: Seq<Fp>, k: int)
    requires
        0 <= k < inputs.len(),
        k + 1 < window,
    ensures
        run(std_unit(), SamplesState::init(window), inputs).1[k] == Fp(NAN),
{
    lemma_quiet_before(
        std_unit(),
        |s: SamplesState| s.window == window,
        |s: SamplesState| s.buffer.len(),
        |o: Fp| o == Fp(NAN),
        window,
        SamplesState::init(window),
        inputs,
        k,
    );
}

/// Reset idempotence: a unit that has seen `before`, is reset, and then
/// sees `replay` does what a new one does on `replay`.
pub proof fn lemma_std_reset_replays(window: nat, before: Seq<Fp>, replay: Seq<Fp>)
    ensures
        ({
            let new = SamplesState::init(window);
            let s = run(std_unit(), new, before).0;
            run(std_unit(), SamplesState::init(s.window), replay) == run(std_unit(), new, replay)
        }),
{
    lemma_reset_replays(
        std_unit(),
        |s: SamplesState| SamplesState::init(s.window),
        SamplesState::init(window),
        before,
        replay,
    );
}

/// Streaming rolling variance.
pub struct VarianceStreaming {
    window: usize,
    buffer: Window,
}

impl View for VarianceStreaming {
    type V = SamplesState;

    closed spec fn view(&self) -> SamplesState {
        SamplesState { window: self.window as nat, buffer: self.buffer@ }
    }
}

impl VarianceStreaming {
    /// What the unit keeps true of its own fields between calls.
    pub closed spec fn wf(&self) -> bool {
        &&& self.window >= 1
        &&& self.buffer.wf()
        &&& self.buffer.capacity() == self.window
    }

    pub fn new(window: usize) -> (r: Self)
        requires
            window >= 1,
        ensures
            r.wf(),
            r@ == SamplesState::init(window as nat),
    {
        VarianceStreaming { window, buffer: Window::new(window) }
    }

    pub fn update(&mut self, value: Fp) -> (r: Fp)
        requires
            old(self).wf(),
        ensures
            final(self).wf(),
            final(self)@.valid(),
            (final(self)@, r) == old(self)@.variance_step(value),
    {
        self.buffer.push(value);
        if self.buffer.len() < self.window {
            Fp(NAN)
        } else {
            population_variance_of(&self.buffer, self.window)
        }
    }

    /// Returns the unit to the state it was made in.
    pub fn reset(&mut self)
        requires
            old(self).wf(),
        ensures
            final(self).wf(),
            final(self)@ == SamplesState::init(old(self)@.window),
    {
        self.buffer.clear();
    }
}

/// The rolling variance as a step from state and input to state and output.
pub open spec fn variance_unit() -> spec_fn(SamplesState, Fp) -> (SamplesState, Fp) {
    |s: SamplesState, x: Fp| s.variance_step(x)
}

/// Warm-up: a new rolling variance gives nothing before its `window`-th sample.
pub proof fn lemma_variance_warm_up(window: nat, inputs: Seq<Fp>, k: int)
    requires
        0 <= k < inputs.len(),
        k + 1 < window,
    ensures
        run(variance_unit(), SamplesState::init(window), inputs).1[k] == Fp(NAN),
{
    lemma_quiet_before(
        variance_unit(),
        |s: SamplesState| s.window == window,
        |s: SamplesState| s.buffer.len(),
        |o: Fp| o == Fp(NAN),
        window,
        SamplesState::init(window),
        inputs,
        k,
    );
}

/// Reset idempotence: a unit that has seen `before`, is reset, and then
/// sees `replay` does what a new one does on `replay`.
pub proof fn lemma_variance_reset_replays(window: nat, before: Seq<Fp>, replay: Seq<Fp>)
    ensures
        ({
            let new = SamplesState::init(window);
            let s = run(variance_unit(), new, before).0;
            run(variance_unit(), SamplesState::init(s.window), replay)
                == run(variance_unit(), new, replay)
        }),
{
    lemma_reset_replays(
        variance_unit(),
        |s: SamplesState| SamplesState::init(s.window),
        SamplesState::init(window),
        before,
        replay,
    );
}

// ---------------------------------------------------------------------------
// Historical volatility
// ---------------------------------------------------------------------------

/// The sample variance of a run of returns: the squared distances from
/// their mean, added up, over their number less one.
pub open spec fn sample_variance(s: Seq<Fp>) -> Fp {
    let n = of_nat(s.len());
    sq_dev_range(s, 0, s.len() as int, sum(s).div_spec(n)).div_spec(n.sub_spec(Fp(ONE)))
}

/// The volatility of a run of returns: the root of their sample variance,
/// times the root of the trading days of a year where it is annualized.
pub open spec fn volatility_of_returns(s: Seq<Fp>, annualize: bool) -> Fp {
    let daily = sample_variance(s).sqrt_spec();
    if annualize {
        daily.mul_spec(Fp(TRADING_DAYS).sqrt_spec())
    } else {
        daily
    }
}

/// State of the historical volatility: the previous price, the last log
/// returns, and the number of samples seen.
pub struct HistoricalVolatilityState {
    pub window: nat,
    pub annualize: bool,
    pub prev_value: Fp,
    pub log_returns: Seq<Fp>,
    pub count: nat,
}

impl HistoricalVolatilityState {
    /// The state of a new unit.
    pub open spec fn init(window: nat, annualize: bool) -> HistoricalVolatilityState {
        HistoricalVolatilityState {
            window,
            annualize,
            prev_value: Fp(NAN),
            log_returns: Seq::empty(),
            count: 0,
        }
    }

    pub open spec fn valid(self) -> bool {
        self.window >= 1 && self.log_returns.len() <= self.window
    }

    /// The first sample only seeds the previous price. After it, a log return
    /// is recorded whenever both prices are positive, and the volatility is
    /// defined once `window` returns are held.
    pub open spec fn step(self, value: Fp) -> (HistoricalVolatilityState, Fp) {
        let count = bump(self.count);
        if count == 1 {
            (HistoricalVolatilityState { prev_value: value, count, ..self }, Fp(NAN))
        } else {
            let log_returns = if self.prev_value.gt_spec(Fp(ZERO)) && value.gt_spec(Fp(ZERO)) {
                slide(self.log_returns, log_return(self.prev_value, value), self.window)
            } else {
                self.log_returns
            };
            let out = if log_returns.len() < self.window {
                Fp(NAN)
            } else {
                volatility_of_returns(log_returns, self.annualize)
            };
            (HistoricalVolatilityState { prev_value: value, log_returns, count, ..self }, out)
        }
    }
}

/// Streaming historical volatility.
pub struct HistoricalVolatilityStreaming {
    window: usize,
    annualize: bool,
    prev_value: Fp,
    returns_buffer: Window,
    update_count: usize,
}

impl View for HistoricalVolatilityStreaming {
    type V = HistoricalVolatilityState;

    closed spec fn view(&self) -> HistoricalVolatilityState {
        HistoricalVolatilityState {
            window: self.window as nat,
            annualize: self.annualize,
            prev_value: self.prev_value,
            log_returns: self.returns_buffer@,
            count: self.update_count as nat,
        }
    }
}

impl HistoricalVolatilityStreaming {
    /// What the unit keeps true of its own fields between calls.
    pub closed spec fn wf(&self) -> bool {
        &&& self.window >= 1
        &&& self.returns_buffer.wf()
        &&& self.returns_buffer.capacity() == self.window
    }

    pub fn new(window: usize, annualize: bool) -> (r: Self)
        requires
            window >= 1,
        ensures
            r.wf(),
            r@ == HistoricalVolatilityState::init(window as nat, annualize),
    {
        HistoricalVolatilityStreaming {
            window,
            annualize,
            prev_value: Fp(NAN),
            returns_buffer: Window::new(window),
            update_count: 0,
        }
    }

    pub fn update(&mut self, value: Fp) -> (r: Fp)
        requires
            old(self).wf(),
        ensures
            final(self).wf(),
            final(self)@.valid(),
            (final(self)@, r) == old(self)@.step(value),
    {
        self.update_count = bumped(self.update_count);
        if self.update_count == 1 {
            self.prev_value = value;
            return Fp(NAN);
        }
        if self.prev_value.gt(Fp(ZERO)) && value.gt(Fp(ZERO)) {
            let log_return = value.div(self.prev_value).ln();
            self.returns_buffer.push(log_return);
        }
        self.prev_value = value;
        if self.returns_buffer.len() < self.window {
            Fp(NAN)
        } else {
            let len = self.returns_buffer.len();
            let n = Fp::from_usize(len);
            let mean = sum_of(&self.returns_buffer, 0, len).div(n);
            let variance = sq_dev_of(&self.returns_buffer, 0, len, mean).div(n.sub(Fp(ONE)));
            let mut volatility = variance.sqrt();
            if self.annualize {
                volatility = volatility.mul(Fp(TRADING_DAYS).sqrt());
            }
            volatility
        }
    }

    /// Returns the unit to the state it was made in.
    pub fn reset(&mut self)
        requires
            old(self).wf(),
        ensures
            final(self).wf(),
            final(self)@ == HistoricalVolatilityState::init(
                old(self)@.window,
                old(self)@.annualize,
            ),
    {
        self.prev_value = Fp(NAN);
        self.returns_buffer.clear();
        self.update_count = 0;
    }
}

/// The historical volatility as a step from state and input to state and output.
pub open spec fn historical_volatility_unit() -> spec_fn(HistoricalVolatilityState, Fp) -> (
    HistoricalVolatilityState,
    Fp,
) {
    |s: HistoricalVolatilityState, x: Fp| s.step(x)
}

/// Warm-up: a new historical volatility gives nothing before its `window`-th sample.
pub proof fn lemma_historical_volatility_warm_up(
    window: nat,
    annualize: bool,
    inputs: Seq<Fp>,
    k: int,
)
    requires
        0 <= k < inputs.len(),
        k + 1 < window,
    ensures
        ({
            let new = HistoricalVolatilityState::init(window, annualize);
            let o = run(historical_volatility_unit(), new, inputs).1[k];
            o == Fp(NAN)
        }),
{
    lemma_quiet_before(
        historical_volatility_unit(),
        |s: HistoricalVolatilityState| s.window == window,
        |s: HistoricalVolatilityState| s.log_returns.len(),
        |o: Fp| o == Fp(NAN),
        window,
        HistoricalVolatilityState::init(window, annualize),
        inputs,
        k,
    );
}

/// Reset idempotence: a unit that has seen `before`, is reset, and then
/// sees `replay` does what a new one does on `replay`.
pub proof fn lemma_historical_volatility_reset_replays(
    window: nat,
    annualize: bool,
    before: Seq<Fp>,
    replay: Seq<Fp>,
)
    ensures
        ({
            let new = HistoricalVolatilityState::init(window, annualize);
            let s = run(historical_volatility_unit(), new, before).0;
            run(
                historical_volatility_unit(),
                HistoricalVolatilityState::init(
                    s.window,
                    s.annualize,
                ),
                replay,
            ) == run(historical_volatility_unit(), new, replay)
        }),
{
    lemma_reset_replays(
        historical_volatility_unit(),
        |s: HistoricalVolatilityState| HistoricalVolatilityState::init(s.window, s.annualize),
        HistoricalVolatilityState::init(window, annualize),
        before,
        replay,
    );
}

// ---------------------------------------------------------------------------
// Flat series
// ---------------------------------------------------------------------------

/// Degenerate input: a full window of one value, whose mean is that value,
/// has variance and standard deviation zero. The mean of a flat window is
/// its value whenever the sum of the window divides back exactly.
pub proof fn lemma_flat_window_has_no_spread(s: Seq<Fp>, window: nat, x: Fp)
    requires
        1 <= window < EXACT_LIMIT,
        s.len() == window,
        flat(s, 0, s.len() as int, x),
        x.finite(),
        window_mean(s, window) == x,
    ensures
        population_variance(s, window) == Fp(ZERO),
        population_std(s, window) == Fp(ZERO),
{
    lemma_flat_deviations(s, 0, s.len() as int, x);
    lemma_zero_over_length(window);
}

/// Degenerate input: the standard deviation unit gives zero on a window
/// that has become flat.
pub proof fn lemma_flat_std_is_zero(state: SamplesState, x: Fp)
    requires
        1 <= state.window < EXACT_LIMIT,
        state.pushed(x).buffer.len() == state.window,
        flat(state.pushed(x).buffer, 0, state.window as int, x),
        x.finite(),
        window_mean(state.pushed(x).buffer, state.window) == x,
    ensures
        state.std_step(x).1 == Fp(ZERO),
        state.variance_step(x).1 == Fp(ZERO),
{
    lemma_flat_window_has_no_spread(state.pushed(x).buffer, state.window, x);
}

/// Degenerate input: on a window that has become flat the Bollinger bands
/// have no width: the upper and the lower band equal the middle one.
pub proof fn lemma_flat_bollinger_has_no_width(state: BollingerBandsState, x: Fp)
    requires
        1 <= state.window < EXACT_LIMIT,
        state.std_dev.finite(),
        slide(state.buffer, x, state.window).len() == state.window,
        flat(slide(state.buffer, x, state.window), 0, state.window as int, x),
        x.finite(),
        window_mean(slide(state.buffer, x, state.window), state.window) == x,
    ensures
        ({
            let (upper, middle, lower) = state.step(x).1;
            middle == x && upper.eq_spec(middle) && lower.eq_spec(middle)
        }),
{
    lemma_flat_window_has_no_spread(slide(state.buffer, x, state.window), state.window, x);
}

/// Whether every bar of a series has its high, its low and its close at `x`.
pub open spec fn flat_bars(inputs: Seq<(Fp, Fp, Fp)>, x: Fp) -> bool {
    forall|k: int| 0 <= k < inputs.len() ==> #[trigger] inputs[k] == (x, x, x)
}

/// The state of an average true range that has seen nothing but flat bars
/// at `x`: either new, or holding a range of zero.
pub open spec fn atr_at_rest(s: AtrState, window: nat, x: Fp) -> bool {
    &&& s.window == window
    &&& s.alpha == wilder_alpha(window)
    &&& s.count == 0 ==> s == AtrState::init(window)
    &&& s.count > 0 ==> s.prev_close == x && s.current.zero()
}

/// Degenerate input: the average true range of a flat series is zero from
/// the `window`-th bar on.
pub proof fn lemma_flat_atr_is_zero(window: nat, x: Fp, inputs: Seq<(Fp, Fp, Fp)>, k: int)
    requires
        window <= usize::MAX,
        x.finite(),
        usable_constant(wilder_alpha(window)),
        flat_bars(inputs, x),
        0 <= k < inputs.len(),
        window <= k + 1,
    ensures
        run(atr_unit(), AtrState::init(window), inputs).1[k].zero(),
{
    lemma_run_at(atr_unit(), AtrState::init(window), inputs, k);
    let before = inputs.take(k);
    assert(x.sub_spec(x) == Fp(ZERO));
    assert forall|s: AtrState, bar: (Fp, Fp, Fp)|
        atr_at_rest(s, window, x) && bar == (x, x, x) implies atr_at_rest(
        #[trigger] atr_unit()(s, bar).0,
        window,
        x,
    ) by {
        let next = s.step(x, x, x).0;
        assert(s.range(x, x).zero());
        assert(next.current.zero());
        assert(next.count == bump(s.count));
    }
    lemma_run_keeps_on(
        atr_unit(),
        |s: AtrState| atr_at_rest(s, window, x),
        |bar: (Fp, Fp, Fp)| bar == (x, x, x),
        AtrState::init(window),
        before,
    );
    lemma_count_after(atr_unit(), |s: AtrState| s.count, AtrState::init(window), before);
    let mid = run(atr_unit(), AtrState::init(window), before).0;
    assert(inputs[k] == (x, x, x));
    assert(mid.range(x, x).zero());
}

/// Tests whether the mean of `window` copies of `x` is exact. Where it is,
/// the standard deviation unit, the variance unit and the Bollinger bands
/// give no spread on every update that leaves their window holding
/// `window` copies of `x`.
pub fn flat_window_has_no_spread(x: Fp, window: usize) -> (ok: bool)
    ensures
        ok == flat_mean_exact(x, window as nat),
        ok ==> forall|state: SamplesState|
            state.window == window && state.pushed(x).buffer == flat_run(x, window as nat) ==> (
            #[trigger] state.std_step(x)).1 == Fp(ZERO),
        ok ==> forall|state: SamplesState|
            state.window == window && state.pushed(x).buffer == flat_run(x, window as nat) ==> (
            #[trigger] state.variance_step(x)).1 == Fp(ZERO),
        ok ==> forall|state: BollingerBandsState|
            state.window == window && state.std_dev.finite() && slide(
                state.buffer,
                x,
                state.window,
            ) == flat_run(x, window as nat) ==> ({
                let (upper, middle, lower) = (#[trigger] state.step(x)).1;
                middle == x && upper.eq_spec(middle) && lower.eq_spec(middle)
            }),
{
    let ok = flat_mean_is_exact(x, window);
    proof {
        if ok {
            assert forall|state: SamplesState|
                state.window == window && state.pushed(x).buffer == flat_run(
                    x,
                    window as nat,
                ) implies (#[trigger] state.std_step(x)).1 == Fp(ZERO) by {
                lemma_flat_std_is_zero(state, x);
            }
            assert forall|state: SamplesState|
                state.window == window && state.pushed(x).buffer == flat_run(
                    x,
                    window as nat,
                ) implies (#[trigger] state.variance_step(x)).1 == Fp(ZERO) by {
                lemma_flat_std_is_zero(state, x);
            }
            assert forall|state: BollingerBandsState|
                state.window == window && state.std_dev.finite() && slide(
                    state.buffer,
                    x,
                    state.window,
                ) == flat_run(x, window as nat) implies ({
                let (upper, middle, lower) = (#[trigger] state.step(x)).1;
                middle == x && upper.eq_spec(middle) && lower.eq_spec(middle)
            }) by {
                lemma_flat_bollinger_has_no_width(state, x);
            }
        }
    }
    ok
}

/// The output at position `k` of a new average true range fed `inputs`.
pub open spec fn atr_output(window: nat, inputs: Seq<(Fp, Fp, Fp)>, k: int) -> Fp {
    run(atr_unit(), AtrState::init(window), inputs).1[k]
}

/// Tests whether the constant of Wilder's average over `window` bars is
/// usable. Where it is, the average true range of every flat series is zero
/// from the `window`-th bar on.
pub fn flat_atr_is_zero(window: usize) -> (ok: bool)
    ensures
        ok == usable_constant(wilder_alpha(window as nat)),
        ok ==> forall|x: Fp, inputs: Seq<(Fp, Fp, Fp)>, k: int|
            #![trigger flat_bars(inputs, x), atr_output(window as nat, inputs, k)]
            x.finite() && flat_bars(inputs, x) && 0 <= k < inputs.len() && window <= k + 1
                ==> atr_output(window as nat, inputs, k).zero(),
{
    let ok = wilder_constant_is_usable(window);
    proof {
        if ok {
            assert forall|x: Fp, inputs: Seq<(Fp, Fp, Fp)>, k: int|
                #![trigger flat_bars(inputs, x), atr_output(window as nat, inputs, k)]
                x.finite() && flat_bars(inputs, x) && 0 <= k < inputs.len() && window <= k
                    + 1 implies atr_output(window as nat, inputs, k).zero() by {
                lemma_flat_atr_is_zero(window as nat, x, inputs, k);
            }
        }
    }
    ok
}

} // verus!
