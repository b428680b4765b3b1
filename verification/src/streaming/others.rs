//! Streaming return and statistics indicators.

use vstd::prelude::*;
use crate::fp::{Fp, NAN, ZERO, ONE, TWO, SIX, HUNDRED, TRADING_DAYS, of_nat};
use crate::series::{
    sum, sum_of, sq_dev_range, sq_dev_of, index_dot, index_dot_of, count_le, count_le_of,
    deepest_drawdown, deepest_drawdown_of, bump, bumped, population_std, population_variance_of,
    window_mean, window_mean_of,
};
use crate::window::{Window, SamplesState, slide};
use crate::streaming::run::{run, lemma_quiet_before, lemma_reset_replays};
use crate::formulas::{log_return, percent_change, percent_change_of};

verus! {

// ---------------------------------------------------------------------------
// Daily return
// ---------------------------------------------------------------------------

/// State of an indicator that compares each close with the previous one.
pub struct PrevCloseState {
    pub prev_close: Fp,
    pub count: nat,
}

/// The log return from `prev` to `close` in percent; undefined unless both
/// are positive.
pub open spec fn percent_log_return(prev: Fp, close: Fp) -> Fp {
    if prev.gt_spec(Fp(ZERO)) && close.gt_spec(Fp(ZERO)) {
        log_return(prev, close).mul_spec(Fp(HUNDRED))
    } else {
        Fp(NAN)
    }
}

impl PrevCloseState {
    /// The state of a new unit.
    pub open spec fn init() -> PrevCloseState {
        PrevCloseState { prev_close: Fp(NAN), count: 0 }
    }

    /// Daily return: undefined on the first close and where the previous
    /// close is zero; else the change in percent of the previous close.
    pub open spec fn daily_step(self, close: Fp) -> (PrevCloseState, Fp) {
        let count = bump(self.count);
        let out = if count == 1 {
            Fp(NAN)
        } else {
            percent_change(self.prev_close, close, Fp(NAN))
        };
        (PrevCloseState { prev_close: close, count }, out)
    }

    /// Daily log return: undefined on the first close and unless both closes
    /// are positive; else the logarithm of their ratio, in percent.
    pub open spec fn daily_log_step(self, close: Fp) -> (PrevCloseState, Fp) {
        let count = bump(self.count);
        let out = if count == 1 {
            Fp(NAN)
        } else {
            percent_log_return(self.prev_close, close)
        };
        (PrevCloseState { prev_close: close, count }, out)
    }
}

/// Streaming daily return.
pub struct DailyReturnStreaming {
    prev_close: Fp,
    update_count: usize,
}

impl View for DailyReturnStreaming {
    type V = PrevCloseState;

    closed spec fn view(&self) -> PrevCloseState {
        PrevCloseState { prev_close: self.prev_close, count: self.update_count as nat }
    }
}

impl DailyReturnStreaming {
    pub fn new() -> (r: Self)
        ensures
            r@ == PrevCloseState::init(),
    {
        DailyReturnStreaming { prev_close: Fp(NAN), update_count: 0 }
    }

    pub fn update(&mut self, close: Fp) -> (r: Fp)
        ensures
            (final(self)@, r) == old(self)@.daily_step(close),
    {
        self.update_count = bumped(self.update_count);
        if self.update_count == 1 {
            self.prev_close = close;
            return Fp(NAN);
        }
        let result = percent_change_of(self.prev_close, close, Fp(NAN));
        self.prev_close = close;
        result
    }

    /// Returns the unit to the state it was made in.
    pub fn reset(&mut self)
        ensures
            final(self)@ == PrevCloseState::init(),
    {
        self.prev_close = Fp(NAN);
        self.update_count = 0;
    }
}

/// The daily return as a step from state and input to state and output.
pub open spec fn daily_return_unit() -> spec_fn(PrevCloseState, Fp) -> (PrevCloseState, Fp) {
    |s: PrevCloseState, x: Fp| s.daily_step(x)
}

/// Reset idempotence: a unit that has seen `before`, is reset, and then
/// sees `replay` does what a new one does on `replay`.
pub proof fn lemma_daily_return_reset_replays(before: Seq<Fp>, replay: Seq<Fp>)
    ensures
        ({
            let new = PrevCloseState::init();
            let s = run(daily_return_unit(), new, before).0;
            run(daily_return_unit(), PrevCloseState::init(), replay)
                == run(daily_return_unit(), new, replay)
        }),
{
    lemma_reset_replays(
        daily_return_unit(),
        |s: PrevCloseState| PrevCloseState::init(),
        PrevCloseState::init(),
        before,
        replay,
    );
}

// ---------------------------------------------------------------------------
// Daily log return
// ---------------------------------------------------------------------------

/// Streaming daily log return.
pub struct DailyLogReturnStreaming {
    prev_close: Fp,
    update_count: usize,
}

impl View for DailyLogReturnStreaming {
    type V = PrevCloseState;

    closed spec fn view(&self) -> PrevCloseState {
        PrevCloseState { prev_close: self.prev_close, count: self.update_count as nat }
    }
}

impl DailyLogReturnStreaming {
    pub fn new() -> (r: Self)
        ensures
            r@ == PrevCloseState::init(),
    {
        DailyLogReturnStreaming { prev_close: Fp(NAN), update_count: 0 }
    }

    pub fn update(&mut self, close: Fp) -> (r: Fp)
        ensures
            (final(self)@, r) == old(self)@.daily_log_step(close),
    {
        self.update_count = bumped(self.update_count);
        if self.update_count == 1 {
            self.prev_close = close;
            return Fp(NAN);
        }
        let result = if self.prev_close.gt(Fp(ZERO)) && close.gt(Fp(ZERO)) {
            close.div(self.prev_close).ln().mul(Fp(HUNDRED))
        } else {
            Fp(NAN)
        };
        self.prev_close = close;
        result
    }

    /// Returns the unit to the state it was made in.
    pub fn reset(&mut self)
        ensures
            final(self)@ == PrevCloseState::init(),
    {
        self.prev_close = Fp(NAN);
        self.update_count = 0;
    }
}

/// The daily log return as a step from state and input to state and output.
pub open spec fn daily_log_return_unit() -> spec_fn(PrevCloseState, Fp) -> (PrevCloseState, Fp) {
    |s: PrevCloseState, x: Fp| s.daily_log_step(x)
}

/// Reset idempotence: a unit that has seen `before`, is reset, and then
/// sees `replay` does what a new one does on `replay`.
pub proof fn lemma_daily_log_return_reset_replays(before: Seq<Fp>, replay: Seq<Fp>)
    ensures
        ({
            let new = PrevCloseState::init();
            let s = run(daily_log_return_unit(), new, before).0;
            run(daily_log_return_unit(), PrevCloseState::init(), replay)
                == run(daily_log_return_unit(), new, replay)
        }),
{
    lemma_reset_replays(
        daily_log_return_unit(),
        |s: PrevCloseState| PrevCloseState::init(),
        PrevCloseState::init(),
        before,
        replay,
    );
}

// ---------------------------------------------------------------------------
// Cumulative return
// ---------------------------------------------------------------------------

/// The return from `initial` to `close` in percent; undefined where the
/// initial price is zero.
pub open spec fn return_since(initial: Fp, close: Fp) -> Fp {
    if initial.ne_spec(Fp(ZERO)) {
        close.div_spec(initial).sub_spec(Fp(ONE)).mul_spec(Fp(HUNDRED))
    } else {
        Fp(NAN)
    }
}

/// State of the cumulative return: the first price and the number of prices
/// seen.
pub struct CumulativeReturnState {
    pub initial_price: Fp,
    pub count: nat,
}

impl CumulativeReturnState {
    /// The state of a new unit.
    pub open spec fn init() -> CumulativeReturnState {
        CumulativeReturnState { initial_price: Fp(NAN), count: 0 }
    }

    /// The first price is kept, and its return is zero. Each later price is
    /// measured against it.
    pub open spec fn step(self, close: Fp) -> (CumulativeReturnState, Fp) {
        let count = bump(self.count);
        if count == 1 {
            (CumulativeReturnState { initial_price: close, count }, Fp(ZERO))
        } else {
            (
                CumulativeReturnState { initial_price: self.initial_price, count },
                return_since(self.initial_price, close),
            )
        }
    }
}

/// Streaming cumulative return.
pub struct CumulativeReturnStreaming {
    initial_price: Fp,
    update_count: usize,
}

impl View for CumulativeReturnStreaming {
    type V = CumulativeReturnState;

    closed spec fn view(&self) -> CumulativeReturnState {
        CumulativeReturnState {
            initial_price: self.initial_price,
            count: self.update_count as nat,
        }
    }
}

impl CumulativeReturnStreaming {
    pub fn new() -> (r: Self)
        ensures
            r@ == CumulativeReturnState::init(),
    {
        CumulativeReturnStreaming { initial_price: Fp(NAN), update_count: 0 }
    }

    pub fn update(&mut self, close: Fp) -> (r: Fp)
        ensures
            (final(self)@, r) == old(self)@.step(close),
    {
        self.update_count = bumped(self.update_count);
        if self.update_count == 1 {
            self.initial_price = close;
            return Fp(ZERO);
        }
        if self.initial_price.ne(Fp(ZERO)) {
            close.div(self.initial_price).sub(Fp(ONE)).mul(Fp(HUNDRED))
        } else {
            Fp(NAN)
        }
    }

    /// Returns the unit to the state it was made in.
    pub fn reset(&mut self)
        ensures
            final(self)@ == CumulativeReturnState::init(),
    {
        self.initial_price = Fp(NAN);
        self.update_count = 0;
    }
}

/// The cumulative return as a step from state and input to state and output.
pub open spec fn cumulative_return_unit() -> spec_fn(CumulativeReturnState, Fp) -> (
    CumulativeReturnState,
    Fp,
) {
    |s: CumulativeReturnState, x: Fp| s.step(x)
}

/// Reset idempotence: a unit that has seen `before`, is reset, and then
/// sees `replay` does what a new one does on `replay`.
pub proof fn lemma_cumulative_return_reset_replays(before: Seq<Fp>, replay: Seq<Fp>)
    ensures
        ({
            let new = CumulativeReturnState::init();
            let s = run(cumulative_return_unit(), new, before).0;
            run(cumulative_return_unit(), CumulativeReturnState::init(), replay)
                == run(cumulative_return_unit(), new, replay)
        }),
{
    lemma_reset_replays(
        cumulative_return_unit(),
        |s: CumulativeReturnState| CumulativeReturnState::init(),
        CumulativeReturnState::init(),
        before,
        replay,
    );
}

// ---------------------------------------------------------------------------
// Indicators over the last samples
// ---------------------------------------------------------------------------

/// The z-score of `value` in a full window: its distance from the mean in
/// population standard deviations; zero where the deviation is zero.
pub open spec fn zscore(s: Seq<Fp>, window: nat, value: Fp) -> Fp {
    let std = population_std(s, window);
    if std.ne_spec(Fp(ZERO)) {
        value.sub_spec(window_mean(s, window)).div_spec(std)
    } else {
        Fp(ZERO)
    }
}

/// The sum of the positions zero to `window` less one, in closed form.
pub open spec fn slope_sum_x(window: nat) -> Fp {
    let w = of_nat(window);
    w.mul_spec(w.sub_spec(Fp(ONE))).div_spec(Fp(TWO))
}

/// The sum of the squares of the positions zero to `window` less one, in
/// closed form.
pub open spec fn slope_sum_x2(window: nat) -> Fp {
    let w = of_nat(window);
    w.mul_spec(w.sub_spec(Fp(ONE))).mul_spec(Fp(TWO).mul_spec(w).sub_spec(Fp(ONE))).div_spec(
        Fp(SIX),
    )
}

/// The denominator of the least-squares slope over `window` positions.
pub open spec fn slope_denom(window: nat) -> Fp {
    of_nat(window).mul_spec(slope_sum_x2(window)).sub_spec(
        slope_sum_x(window).mul_spec(slope_sum_x(window)),
    )
}

/// The least-squares slope of the samples at `lo..lo + window` against
/// their positions.
pub open spec fn slope(s: Seq<Fp>, lo: int, window: nat) -> Fp {
    let hi = lo + window;
    of_nat(window).mul_spec(index_dot(s, lo, hi)).sub_spec(
        slope_sum_x(window).mul_spec(crate::series::sum_range(s, lo, hi)),
    ).div_spec(slope_denom(window))
}

/// The annualized return of a run of prices over its deepest drawdown; zero
/// where there is no drawdown.
pub open spec fn calmar(s: Seq<Fp>) -> Fp {
    let n = s.len() as int;
    let total_return = s[n - 1].div_spec(s[0]).sub_spec(Fp(ONE));
    let annual_return = total_return.mul_spec(Fp(TRADING_DAYS).div_spec(of_nat(s.len())));
    let max_drawdown = deepest_drawdown(s, n).abs_spec();
    if max_drawdown.gt_spec(Fp(ZERO)) {
        annual_return.div_spec(max_drawdown)
    } else {
        Fp(ZERO)
    }
}

impl SamplesState {
    /// Rolling return: undefined until `window` prices have arrived; then
    /// the change from the oldest to the newest price held, in percent of the
    /// oldest, and zero where that is zero.
    pub open spec fn return_step(self, close: Fp) -> (SamplesState, Fp) {
        let next = self.pushed(close);
        let out = if next.buffer.len() < self.window {
            Fp(NAN)
        } else {
            percent_change(next.buffer[0], next.buffer[next.buffer.len() - 1], Fp(ZERO))
        };
        (next, out)
    }

    /// Maximum drawdown: undefined until `window` prices have arrived; then
    /// the deepest drawdown among the prices held, in percent.
    pub open spec fn drawdown_step(self, close: Fp) -> (SamplesState, Fp) {
        let next = self.pushed(close);
        let out = if next.buffer.len() < self.window {
            Fp(NAN)
        } else {
            deepest_drawdown(next.buffer, next.buffer.len() as int).mul_spec(Fp(HUNDRED))
        };
        (next, out)
    }

    /// Rolling z-score: undefined until `window` samples have arrived.
    pub open spec fn zscore_step(self, value: Fp) -> (SamplesState, Fp) {
        let next = self.pushed(value);
        let out = if next.buffer.len() < self.window {
            Fp(NAN)
        } else {
            zscore(next.buffer, self.window, value)
        };
        (next, out)
    }

    /// Linear regression slope: undefined until `window` samples have
    /// arrived and where the denominator is zero, as it is for a window of
    /// one.
    pub open spec fn slope_step(self, value: Fp) -> (SamplesState, Fp) {
        let next = self.pushed(value);
        let out = if next.buffer.len() < self.window || slope_denom(self.window).eq_spec(
            Fp(ZERO),
        ) {
            Fp(NAN)
        } else {
            slope(next.buffer, 0, self.window)
        };
        (next, out)
    }

    /// Rolling percentile: undefined until `window` samples have arrived;
    /// then the share of the samples held that do not exceed the newest.
    pub open spec fn percentile_step(self, value: Fp) -> (SamplesState, Fp) {
        let next = self.pushed(value);
        let out = if next.buffer.len() < self.window {
            Fp(NAN)
        } else {
            of_nat(count_le(next.buffer, 0, next.buffer.len() as int, value)).div_spec(
                of_nat(self.window),
            )
        };
        (next, out)
    }

    /// Calmar ratio: undefined until `window` prices have arrived.
    pub open spec fn calmar_step(self, close: Fp) -> (SamplesState, Fp) {
        let next = self.pushed(close);
        let out = if next.buffer.len() < self.window {
            Fp(NAN)
        } else {
            calmar(next.buffer)
        };
        (next, out)
    }
}

/// Streaming rolling return.
pub struct RollingReturnStreaming {
    window: usize,
    close_buffer: Window,
}

impl View for RollingReturnStreaming {
    type V = SamplesState;

    closed spec fn view(&self) -> SamplesState {
        SamplesState { window: self.window as nat, buffer: self.close_buffer@ }
    }
}

impl RollingReturnStreaming {
    /// What the unit keeps true of its own fields between calls.
    pub closed spec fn wf(&self) -> bool {
        &&& self.window >= 1
        &&& self.close_buffer.wf()
        &&& self.close_buffer.capacity() == self.window
    }

    pub fn new(window: usize) -> (r: Self)
        requires
            window >= 1,
        ensures
            r.wf(),
            r@ == SamplesState::init(window as nat),
    {
        RollingReturnStreaming { window, close_buffer: Window::new(window) }
    }

    pub fn update(&mut self, close: Fp) -> (r: Fp)
        requires
            old(self).wf(),
        ensures
            final(self).wf(),
            final(self)@.valid(),
            (final(self)@, r) == old(self)@.return_step(close),
    {
        self.close_buffer.push(close);
        if self.close_buffer.len() < self.window {
            Fp(NAN)
        } else {
            let start_price = self.close_buffer.get(0);
            let end_price = self.close_buffer.get(self.close_buffer.len() - 1);
            percent_change_of(start_price, end_price, Fp(ZERO))
        }
    }

    /// Returns the unit to the state it was made in.
    pub fn reset(&mut self)
        requires
            old(self).wf(),
        ensures
            final(self).wf(),
            final(self)@ == SamplesState::init(old(self)@.window),
    {
        self.close_buffer.clear();
    }
}

/// The rolling return as a step from state and input to state and output.
pub open spec fn rolling_return_unit() -> spec_fn(SamplesState, Fp) -> (SamplesState, Fp) {
    |s: SamplesState, x: Fp| s.return_step(x)
}

/// Warm-up: a new rolling return gives nothing before its `window`-th sample.
pub proof fn lemma_rolling_return_warm_up(window: nat, inputs: Seq<Fp>, k: int)
    requires
        0 <= k < inputs.len(),
        k + 1 < window,
    ensures
        run(rolling_return_unit(), SamplesState::init(window), inputs).1[k] == Fp(NAN),
{
    lemma_quiet_before(
        rolling_return_unit(),
        |s: SamplesState| s.window == window,
        |s: SamplesState| s.buffer.len(),
        |o: Fp| o == Fp(NAN),
        window,
        SamplesState::init(window),
        inputs,
        k,
    );
}

/// Reset idempotence: a unit that has seen `before`, is reset, and then
/// sees `replay` does what a new one does on `replay`.
pub proof fn lemma_rolling_return_reset_replays(window: nat, before: Seq<Fp>, replay: Seq<Fp>)
    ensures
        ({
            let new = SamplesState::init(window);
            let s = run(rolling_return_unit(), new, before).0;
            run(rolling_return_unit(), SamplesState::init(s.window), replay)
                == run(rolling_return_unit(), new, replay)
        }),
{
    lemma_reset_replays(
        rolling_return_unit(),
        |s: SamplesState| SamplesState::init(s.window),
        SamplesState::init(window),
        before,
        replay,
    );
}

/// Streaming maximum drawdown.
pub struct MaxDrawdownStreaming {
    window: usize,
    close_buffer: Window,
}

impl View for MaxDrawdownStreaming {
    type V = SamplesState;

    closed spec fn view(&self) -> SamplesState {
        SamplesState { window: self.window as nat, buffer: self.close_buffer@ }
    }
}

impl MaxDrawdownStreaming {
    /// What the unit keeps true of its own fields between calls.
    pub closed spec fn wf(&self) -> bool {
        &&& self.window >= 1
        &&& self.close_buffer.wf()
        &&& self.close_buffer.capacity() == self.window
    }

    pub fn new(window: usize) -> (r: Self)
        requires
            window >= 1,
        ensures
            r.wf(),
            r@ == SamplesState::init(window as nat),
    {
        MaxDrawdownStreaming { window, close_buffer: Window::new(window) }
    }

    pub fn update(&mut self, close: Fp) -> (r: Fp)
        requires
            old(self).wf(),
        ensures
            final(self).wf(),
            final(self)@.valid(),
            (final(self)@, r) == old(self)@.drawdown_step(close),
    {
        self.close_buffer.push(close);
        if self.close_buffer.len() < self.window {
            Fp(NAN)
        } else {
            deepest_drawdown_of(&self.close_buffer).mul(Fp(HUNDRED))
        }
    }

    /// Returns the unit to the state it was made in.
    pub fn reset(&mut self)
        requires
            old(self).wf(),
        ensures
            final(self).wf(),
            final(self)@ == SamplesState::init(old(self)@.window),
    {
        self.close_buffer.clear();
    }
}

/// The maximum drawdown as a step from state and input to state and output.
pub open spec fn max_drawdown_unit() -> spec_fn(SamplesState, Fp) -> (SamplesState, Fp) {
    |s: SamplesState, x: Fp| s.drawdown_step(x)
}

/// Warm-up: a new maximum drawdown gives nothing before its `window`-th
/// sample.
pub proof fn lemma_max_drawdown_warm_up(window: nat, inputs: Seq<Fp>, k: int)
    requires
        0 <= k < inputs.len(),
        k + 1 < window,
    ensures
        run(max_drawdown_unit(), SamplesState::init(window), inputs).1[k] == Fp(NAN),
{
    lemma_quiet_before(
        max_drawdown_unit(),
        |s: SamplesState| s.window == window,
        |s: SamplesState| s.buffer.len(),
        |o: Fp| o == Fp(NAN),
        window,
        SamplesState::init(window),
        inputs,
        k,
    );
}

/// Reset idempotence: a unit that has seen `before`, is reset, and then
/// sees `replay` does what a new one does on `replay`.
pub proof fn lemma_max_drawdown_reset_replays(window: nat, before: Seq<Fp>, replay: Seq<Fp>)
    ensures
        ({
            let new = SamplesState::init(window);
            let s = run(max_drawdown_unit(), new, before).0;
            run(max_drawdown_unit(), SamplesState::init(s.window), replay)
                == run(max_drawdown_unit(), new, replay)
        }),
{
    lemma_reset_replays(
        max_drawdown_unit(),
        |s: SamplesState| SamplesState::init(s.window),
        SamplesState::init(window),
        before,
        replay,
    );
}

/// Streaming rolling z-score.
pub struct RollingZScoreStreaming {
    window: usize,
    buffer: Window,
}

impl View for RollingZScoreStreaming {
    type V = SamplesState;

    closed spec fn view(&self) -> SamplesState {
        SamplesState { window: self.window as nat, buffer: self.buffer@ }
    }
}

impl RollingZScoreStreaming {
    /// What the unit keeps true of its own fields between calls.
    pub closed spec fn wf(&self) -> bool {
        &&& self.window >= 1
        &&& self.buffer.wf()
        &&& self.buffer.capacity() == self.window
    }

    pub fn new(window: usize) -> (r: Self)
        requires
            window >= 1,
        ensures
            r.wf(),
            r@ == SamplesState::init(window as nat),
    {
        RollingZScoreStreaming { window, buffer: Window::new(window) }
    }

    pub fn update(&mut self, value: Fp) -> (r: Fp)
        requires
            old(self).wf(),
        ensures
            final(self).wf(),
            final(self)@.valid(),
            (final(self)@, r) == old(self)@.zscore_step(value),
    {
        self.buffer.push(value);
        if self.buffer.len() < self.window {
            Fp(NAN)
        } else {
            let mean = window_mean_of(&self.buffer, self.window);
            let std = population_variance_of(&self.buffer, self.window).sqrt();
            if std.ne(Fp(ZERO)) {
                value.sub(mean).div(std)
            } else {
                Fp(ZERO)
            }
        }
    }

    /// Returns the unit to the state it was made in.
    pub fn reset(&mut self)
        requires
            old(self).wf(),
        ensures
            final(self).wf(),
            final(self)@ == SamplesState::init(old(self)@.window),
    {
        self.buffer.clear();
    }
}

/// The rolling z-score as a step from state and input to state and output.
pub open spec fn zscore_unit() -> spec_fn(SamplesState, Fp) -> (SamplesState, Fp) {
    |s: SamplesState, x: Fp| s.zscore_step(x)
}

/// Warm-up: a new rolling z-score gives nothing before its `window`-th sample.
pub proof fn lemma_zscore_warm_up(window: nat, inputs: Seq<Fp>, k: int)
    requires
        0 <= k < inputs.len(),
        k + 1 < window,
    ensures
        run(zscore_unit(), SamplesState::init(window), inputs).1[k] == Fp(NAN),
{
    lemma_quiet_before(
        zscore_unit(),
        |s: SamplesState| s.window == window,
        |s: SamplesState| s.buffer.len(),
        |o: Fp| o == Fp(NAN),
        window,
        SamplesState::init(window),
        inputs,
        k,
    );
}

/// Reset idempotence: a unit that has seen `before`, is reset, and then
/// sees `replay` does what a new one does on `replay`.
pub proof fn lemma_zscore_reset_replays(window: nat, before: Seq<Fp>, replay: Seq<Fp>)
    ensures
        ({
            let new = SamplesState::init(window);
            let s = run(zscore_unit(), new, before).0;
            run(zscore_unit(), SamplesState::init(s.window), replay)
                == run(zscore_unit(), new, replay)
        }),
{
    lemma_reset_replays(
        zscore_unit(),
        |s: SamplesState| SamplesState::init(s.window),
        SamplesState::init(window),
        before,
        replay,
    );
}

/// Streaming linear regression slope.
pub struct LinearRegressionSlopeStreaming {
    window: usize,
    sum_x: Fp,
    denom: Fp,
    buffer: Window,
}

impl View for LinearRegressionSlopeStreaming {
    type V = SamplesState;

    closed spec fn view(&self) -> SamplesState {
        SamplesState { window: self.window as nat, buffer: self.buffer@ }
    }
}

/// The closed-form sum of positions and the slope's denominator for a
/// window.
pub fn slope_constants(window: usize) -> (r: (Fp, Fp))
    ensures
        r.0 == slope_sum_x(window as nat),
        r.1 == slope_denom(window as nat),
{
    let w = Fp::from_usize(window);
    let sum_x = w.mul(w.sub(Fp(ONE))).div(Fp(TWO));
    let sum_x2 = w.mul(w.sub(Fp(ONE))).mul(Fp(TWO).mul(w).sub(Fp(ONE))).div(Fp(SIX));
    let denom = w.mul(sum_x2).sub(sum_x.mul(sum_x));
    (sum_x, denom)
}

impl LinearRegressionSlopeStreaming {
    /// What the unit keeps true of its own fields between calls.
    pub closed spec fn wf(&self) -> bool {
        &&& self.window >= 1
        &&& self.buffer.wf()
        &&& self.buffer.capacity() == self.window
        &&& self.sum_x == slope_sum_x(self.window as nat)
        &&& self.denom == slope_denom(self.window as nat)
    }

    pub fn new(window: usize) -> (r: Self)
        requires
            window >= 1,
        ensures
            r.wf(),
            r@ == SamplesState::init(window as nat),
    {
        let (sum_x, denom) = slope_constants(window);
        LinearRegressionSlopeStreaming { window, sum_x, denom, buffer: Window::new(window) }
    }

    pub fn update(&mut self, value: Fp) -> (r: Fp)
        requires
            old(self).wf(),
        ensures
            final(self).wf(),
            final(self)@.valid(),
            (final(self)@, r) == old(self)@.slope_step(value),
    {
        self.buffer.push(value);
        if self.buffer.len() < self.window || self.denom.eq(Fp(ZERO)) {
            Fp(NAN)
        } else {
            let n = self.buffer.len();
            let sum_y = sum_of(&self.buffer, 0, n);
            let sum_xy = index_dot_of(&self.buffer, 0, n);
            Fp::from_usize(self.window).mul(sum_xy).sub(self.sum_x.mul(sum_y)).div(self.denom)
        }
    }

    /// Returns the unit to the state it was made in.
    pub fn reset(&mut self)
        requires
            old(self).wf(),
        ensures
            final(self).wf(),
            final(self)@ == SamplesState::init(old(self)@.window),
    {
        self.buffer.clear();
    }
}

/// The linear regression slope as a step from state and input to state and output.
pub open spec fn slope_unit() -> spec_fn(SamplesState, Fp) -> (SamplesState, Fp) {
    |s: SamplesState, x: Fp| s.slope_step(x)
}

/// Warm-up: a new linear regression slope gives nothing before its `window`-th sample.
pub proof fn lemma_slope_warm_up(window: nat, inputs: Seq<Fp>, k: int)
    requires
        0 <= k < inputs.len(),
        k + 1 < window,
    ensures
        run(slope_unit(), SamplesState::init(window), inputs).1[k] == Fp(NAN),
{
    lemma_quiet_before(
        slope_unit(),
        |s: SamplesState| s.window == window,
        |s: SamplesState| s.buffer.len(),
        |o: Fp| o == Fp(NAN),
        window,
        SamplesState::init(window),
        inputs,
        k,
    );
}

/// Reset idempotence: a unit that has seen `before`, is reset, and then
/// sees `replay` does what a new one does on `replay`.
pub proof fn lemma_slope_reset_replays(window: nat, before: Seq<Fp>, replay: Seq<Fp>)
    ensures
        ({
            let new = SamplesState::init(window);
            let s = run(slope_unit(), new, before).0;
            run(slope_unit(), SamplesState::init(s.window), replay)
                == run(slope_unit(), new, replay)
        }),
{
    lemma_reset_replays(
        slope_unit(),
        |s: SamplesState| SamplesState::init(s.window),
        SamplesState::init(window),
        before,
        replay,
    );
}

/// Streaming rolling percentile.
pub struct RollingPercentileStreaming {
    window: usize,
    buffer: Window,
}

impl View for RollingPercentileStreaming {
    type V = SamplesState;

    closed spec fn view(&self) -> SamplesState {
        SamplesState { window: self.window as nat, buffer: self.buffer@ }
    }
}

impl RollingPercentileStreaming {
    /// What the unit keeps true of its own fields between calls.
    pub closed spec fn wf(&self) -> bool {
        &&& self.window >= 1
        &&& self.buffer.wf()
        &&& self.buffer.capacity() == self.window
    }

    pub fn new(window: usize) -> (r: Self)
        requires
            window >= 1,
        ensures
            r.wf(),
            r@ == SamplesState::init(window as nat),
    {
        RollingPercentileStreaming { window, buffer: Window::new(window) }
    }

    pub fn update(&mut self, value: Fp) -> (r: Fp)
        requires
            old(self).wf(),
        ensures
            final(self).wf(),
            final(self)@.valid(),
            (final(self)@, r) == old(self)@.percentile_step(value),
    {
        self.buffer.push(value);
        if self.buffer.len() < self.window {
            Fp(NAN)
        } else {
            let count = count_le_of(&self.buffer, 0, self.buffer.len(), value);
            Fp::from_usize(count).div(Fp::from_usize(self.window))
        }
    }

    /// Returns the unit to the state it was made in.
    pub fn reset(&mut self)
        requires
            old(self).wf(),
        ensures
            final(self).wf(),
            final(self)@ == SamplesState::init(old(self)@.window),
    {
        self.buffer.clear();
    }
}

/// The rolling percentile as a step from state and input to state and output.
pub open spec fn percentile_unit() -> spec_fn(SamplesState, Fp) -> (SamplesState, Fp) {
    |s: SamplesState, x: Fp| s.percentile_step(x)
}

/// Warm-up: a new rolling percentile gives nothing before its `window`-th sample.
pub proof fn lemma_percentile_warm_up(window: nat, inputs: Seq<Fp>, k: int)
    requires
        0 <= k < inputs.len(),
        k + 1 < window,
    ensures
        run(percentile_unit(), SamplesState::init(window), inputs).1[k] == Fp(NAN),
{
    lemma_quiet_before(
        percentile_unit(),
        |s: SamplesState| s.window == window,
        |s: SamplesState| s.buffer.len(),
        |o: Fp| o == Fp(NAN),
        window,
        SamplesState::init(window),
        inputs,
        k,
    );
}

/// Reset idempotence: a unit that has seen `before`, is reset, and then
/// sees `replay` does what a new one does on `replay`.
pub proof fn lemma_percentile_reset_replays(window: nat, before: Seq<Fp>, replay: Seq<Fp>)
    ensures
        ({
            let new = SamplesState::init(window);
            let s = run(percentile_unit(), new, before).0;
            run(percentile_unit(), SamplesState::init(s.window), replay)
                == run(percentile_unit(), new, replay)
        }),
{
    lemma_reset_replays(
        percentile_unit(),
        |s: SamplesState| SamplesState::init(s.window),
        SamplesState::init(window),
        before,
        replay,
    );
}

/// Streaming Calmar ratio.
pub struct CalmarRatioStreaming {
    window: usize,
    close_buffer: Window,
}

impl View for CalmarRatioStreaming {
    type V = SamplesState;

    closed spec fn view(&self) -> SamplesState {
        SamplesState { window: self.window as nat, buffer: self.close_buffer@ }
    }
}

impl CalmarRatioStreaming {
    /// What the unit keeps true of its own fields between calls.
    pub closed spec fn wf(&self) -> bool {
        &&& self.window >= 1
        &&& self.close_buffer.wf()
        &&& self.close_buffer.capacity() == self.window
    }

    pub fn new(window: usize) -> (r: Self)
        requires
            window >= 1,
        ensures
            r.wf(),
            r@ == SamplesState::init(window as nat),
    {
        CalmarRatioStreaming { window, close_buffer: Window::new(window) }
    }

    pub fn update(&mut self, close: Fp) -> (r: Fp)
        requires
            old(self).wf(),
        ensures
            final(self).wf(),
            final(self)@.valid(),
            (final(self)@, r) == old(self)@.calmar_step(close),
    {
        self.close_buffer.push(close);
        if self.close_buffer.len() < self.window {
            Fp(NAN)
        } else {
            let n = self.close_buffer.len();
            let total_return = self.close_buffer.get(n - 1).div(self.close_buffer.get(0)).sub(
                Fp(ONE),
            );
            let annual_return = total_return.mul(Fp(TRADING_DAYS).div(Fp::from_usize(n)));
            let max_drawdown = deepest_drawdown_of(&self.close_buffer).abs();
            if max_drawdown.gt(Fp(ZERO)) {
                annual_return.div(max_drawdown)
            } else {
                Fp(ZERO)
            }
        }
    }

    /// Returns the unit to the state it was made in.
    pub fn reset(&mut self)
        requires
            old(self).wf(),
        ensures
            final(self).wf(),
            final(self)@ == SamplesState::init(old(self)@.window),
    {
        self.close_buffer.clear();
    }
}

/// The Calmar ratio as a step from state and input to state and output.
pub open spec fn calmar_unit() -> spec_fn(SamplesState, Fp) -> (SamplesState, Fp) {
    |s: SamplesState, x: Fp| s.calmar_step(x)
}

/// Warm-up: a new Calmar ratio gives nothing before its `window`-th sample.
pub proof fn lemma_calmar_warm_up(window: nat, inputs: Seq<Fp>, k: int)
    requires
        0 <= k < inputs.len(),
        k + 1 < window,
    ensures
        run(calmar_unit(), SamplesState::init(window), inputs).1[k] == Fp(NAN),
{
    lemma_quiet_before(
        calmar_unit(),
        |s: SamplesState| s.window == window,
        |s: SamplesState| s.buffer.len(),
        |o: Fp| o == Fp(NAN),
        window,
        SamplesState::init(window),
        inputs,
        k,
    );
}

/// Reset idempotence: a unit that has seen `before`, is reset, and then
/// sees `replay` does what a new one does on `replay`.
pub proof fn lemma_calmar_reset_replays(window: nat, before: Seq<Fp>, replay: Seq<Fp>)
    ensures
        ({
            let new = SamplesState::init(window);
            let s = run(calmar_unit(), new, before).0;
            run(calmar_unit(), SamplesState::init(s.window), replay)
                == run(calmar_unit(), new, replay)
        }),
{
    lemma_reset_replays(
        calmar_unit(),
        |s: SamplesState| SamplesState::init(s.window),
        SamplesState::init(window),
        before,
        replay,
    );
}

// ---------------------------------------------------------------------------
// Sharpe ratio
// ---------------------------------------------------------------------------

/// The Sharpe ratio of a run of returns: their annualized mean less the
/// risk-free rate, over their annualized sample deviation; zero where the
/// deviation is not positive.
pub open spec fn sharpe(s: Seq<Fp>, risk_free_rate: Fp, annualization_factor: Fp) -> Fp {
    let avg = sum(s).div_spec(of_nat(s.len()));
    let annualized = avg.mul_spec(annualization_factor);
    let variance = sq_dev_range(s, 0, s.len() as int, avg).div_spec(
        of_nat((s.len() - 1) as nat),
    );
    let volatility = variance.sqrt_spec().mul_spec(annualization_factor.sqrt_spec());
    if volatility.gt_spec(Fp(ZERO)) {
        annualized.sub_spec(risk_free_rate).div_spec(volatility)
    } else {
        Fp(ZERO)
    }
}

/// State of the Sharpe ratio: the previous close, the last log returns, and
/// the number of closes seen.
pub struct SharpeRatioState {
    pub window: nat,
    pub risk_free_rate: Fp,
    pub annualization_factor: Fp,
    pub prev_close: Fp,
    pub log_returns: Seq<Fp>,
    pub count: nat,
}

impl SharpeRatioState {
    /// The state of a new unit.
    pub open spec fn init(
        window: nat,
        risk_free_rate: Fp,
        annualization_factor: Fp,
    ) -> SharpeRatioState {
        SharpeRatioState {
            window,
            risk_free_rate,
            annualization_factor,
            prev_close: Fp(NAN),
            log_returns: Seq::empty(),
            count: 0,
        }
    }

    pub open spec fn valid(self) -> bool {
        self.window >= 1 && self.log_returns.len() <= self.window
    }

    /// The first close only seeds the previous close. After it, a log return
    /// is recorded whenever both closes are positive, and the ratio is
    /// defined once `window` returns are held.
    pub open spec fn step(self, close: Fp) -> (SharpeRatioState, Fp) {
        let count = bump(self.count);
        if count == 1 {
            (SharpeRatioState { prev_close: close, count, ..self }, Fp(NAN))
        } else {
            let log_returns = if self.prev_close.gt_spec(Fp(ZERO)) && close.gt_spec(Fp(ZERO)) {
                slide(self.log_returns, log_return(self.prev_close, close), self.window)
            } else {
                self.log_returns
            };
            let out = if log_returns.len() < self.window {
                Fp(NAN)
            } else {
                sharpe(log_returns, self.risk_free_rate, self.annualization_factor)
            };
            (SharpeRatioState { prev_close: close, log_returns, count, ..self }, out)
        }
    }
}

/// Streaming Sharpe ratio.
pub struct SharpeRatioStreaming {
    window: usize,
    risk_free_rate: Fp,
    annualization_factor: Fp,
    prev_close: Fp,
    returns_buffer: Window,
    update_count: usize,
}

impl View for SharpeRatioStreaming {
    type V = SharpeRatioState;

    closed spec fn view(&self) -> SharpeRatioState {
        SharpeRatioState {
            window: self.window as nat,
            risk_free_rate: self.risk_free_rate,
            annualization_factor: self.annualization_factor,
            prev_close: self.prev_close,
            log_returns: self.returns_buffer@,
            count: self.update_count as nat,
        }
    }
}

impl SharpeRatioStreaming {
    /// What the unit keeps true of its own fields between calls.
    pub closed spec fn wf(&self) -> bool {
        &&& self.window >= 1
        &&& self.returns_buffer.wf()
        &&& self.returns_buffer.capacity() == self.window
    }

    pub fn new(window: usize, risk_free_rate: Fp, annualization_factor: Fp) -> (r: Self)
        requires
            window >= 1,
        ensures
            r.wf(),
            r@ == SharpeRatioState::init(window as nat, risk_free_rate, annualization_factor),
    {
        SharpeRatioStreaming {
            window,
            risk_free_rate,
            annualization_factor,
            prev_close: Fp(NAN),
            returns_buffer: Window::new(window),
            update_count: 0,
        }
    }

    pub fn update(&mut self, close: Fp) -> (r: Fp)
        requires
            old(self).wf(),
        ensures
            final(self).wf(),
            final(self)@.valid(),
            (final(self)@, r) == old(self)@.step(close),
    {
        self.update_count = bumped(self.update_count);
        if self.update_count == 1 {
            self.prev_close = close;
            return Fp(NAN);
        }
        if self.prev_close.gt(Fp(ZERO)) && close.gt(Fp(ZERO)) {
            let log_return = close.div(self.prev_close).ln();
            self.returns_buffer.push(log_return);
        }
        self.prev_close = close;
        if self.returns_buffer.len() < self.window {
            Fp(NAN)
        } else {
            let n = self.returns_buffer.len();
            let avg_return = sum_of(&self.returns_buffer, 0, n).div(Fp::from_usize(n));
            let annualized_return = avg_return.mul(self.annualization_factor);
            let variance = sq_dev_of(&self.returns_buffer, 0, n, avg_return).div(
                Fp::from_usize(n - 1),
            );
            let volatility = variance.sqrt().mul(self.annualization_factor.sqrt());
            if volatility.gt(Fp(ZERO)) {
                annualized_return.sub(self.risk_free_rate).div(volatility)
            } else {
                Fp(ZERO)
            }
        }
    }

    /// Returns the unit to the state it was made in.
    pub fn reset(&mut self)
        requires
            old(self).wf(),
        ensures
            final(self).wf(),
            final(self)@ == SharpeRatioState::init(
                old(self)@.window,
                old(self)@.risk_free_rate,
                old(self)@.annualization_factor,
            ),
    {
        self.prev_close = Fp(NAN);
        self.returns_buffer.clear();
        self.update_count = 0;
    }
}

/// The Sharpe ratio as a step from state and input to state and output.
pub open spec fn sharpe_unit() -> spec_fn(SharpeRatioState, Fp) -> (SharpeRatioState, Fp) {
    |s: SharpeRatioState, x: Fp| s.step(x)
}

/// Warm-up: a new Sharpe ratio gives nothing before its `window`-th sample.
pub proof fn lemma_sharpe_warm_up(
    window: nat,
    risk_free_rate: Fp,
    annualization_factor: Fp,
    inputs: Seq<Fp>,
    k: int,
)
    requires
        0 <= k < inputs.len(),
        k + 1 < window,
    ensures
        ({
            let new = SharpeRatioState::init(window, risk_free_rate, annualization_factor);
            let o = run(sharpe_unit(), new, inputs).1[k];
            o == Fp(NAN)
        }),
{
    lemma_quiet_before(
        sharpe_unit(),
        |s: SharpeRatioState| s.window == window,
        |s: SharpeRatioState| s.log_returns.len(),
        |o: Fp| o == Fp(NAN),
        window,
        SharpeRatioState::init(window, risk_free_rate, annualization_factor),
        inputs,
        k,
    );
}

/// Reset idempotence: a unit that has seen `before`, is reset, and then
/// sees `replay` does what a new one does on `replay`.
pub proof fn lemma_sharpe_reset_replays(
    window: nat,
    risk_free_rate: Fp,
    annualization_factor: Fp,
    before: Seq<Fp>,
    replay: Seq<Fp>,
)
    ensures
        ({
            let new = SharpeRatioState::init(window, risk_free_rate, annualization_factor);
            let s = run(sharpe_unit(), new, before).0;
            run(
                sharpe_unit(),
                SharpeRatioState::init(
                    s.window,
                    s.risk_free_rate,
                    s.annualization_factor,
                ),
                replay,
            ) == run(sharpe_unit(), new, replay)
        }),
{
    lemma_reset_replays(
        sharpe_unit(),
        |s: SharpeRatioState|
            SharpeRatioState::init(
                s.window,
                s.risk_free_rate,
                s.annualization_factor,
            ),
        SharpeRatioState::init(window, risk_free_rate, annualization_factor),
        before,
        replay,
    );
}

// ---------------------------------------------------------------------------
// Compound log return
// ---------------------------------------------------------------------------

/// A cumulative log return as a percentage return.
pub open spec fn compounded(cumulative: Fp) -> Fp {
    cumulative.exp_spec().sub_spec(Fp(ONE)).mul_spec(Fp(HUNDRED))
}

/// State of the compound log return: the sum of the log returns, the
/// previous close, and the number of closes seen.
pub struct CompoundLogReturnState {
    pub cumulative: Fp,
    pub prev_close: Fp,
    pub count: nat,
}

impl CompoundLogReturnState {
    /// The state of a new unit.
    pub open spec fn init() -> CompoundLogReturnState {
        CompoundLogReturnState { cumulative: Fp(ZERO), prev_close: Fp(NAN), count: 0 }
    }

    /// The first close gives zero. After it, the log return is added to the
    /// sum whenever both closes are positive, and the sum is compounded.
    pub open spec fn step(self, close: Fp) -> (CompoundLogReturnState, Fp) {
        let count = bump(self.count);
        if count == 1 {
            (CompoundLogReturnState { prev_close: close, count, ..self }, Fp(ZERO))
        } else {
            let cumulative = if self.prev_close.gt_spec(Fp(ZERO)) && close.gt_spec(Fp(ZERO)) {
                self.cumulative.add_spec(log_return(self.prev_close, close))
            } else {
                self.cumulative
            };
            (
                CompoundLogReturnState { cumulative, prev_close: close, count },
                compounded(cumulative),
            )
        }
    }
}

/// Streaming compound log return.
pub struct CompoundLogReturnStreaming {
    cumulative_log_return: Fp,
    prev_close: Fp,
    update_count: usize,
}

impl View for CompoundLogReturnStreaming {
    type V = CompoundLogReturnState;

    closed spec fn view(&self) -> CompoundLogReturnState {
        CompoundLogReturnState {
            cumulative: self.cumulative_log_return,
            prev_close: self.prev_close,
            count: self.update_count as nat,
        }
    }
}

impl CompoundLogReturnStreaming {
    pub fn new() -> (r: Self)
        ensures
            r@ == CompoundLogReturnState::init(),
    {
        CompoundLogReturnStreaming {
            cumulative_log_return: Fp(ZERO),
            prev_close: Fp(NAN),
            update_count: 0,
        }
    }

    pub fn update(&mut self, close: Fp) -> (r: Fp)
        ensures
            (final(self)@, r) == old(self)@.step(close),
    {
        self.update_count = bumped(self.update_count);
        if self.update_count == 1 {
            self.prev_close = close;
            return Fp(ZERO);
        }
        if self.prev_close.gt(Fp(ZERO)) && close.gt(Fp(ZERO)) {
            let log_return = close.div(self.prev_close).ln();
            self.cumulative_log_return = self.cumulative_log_return.add(log_return);
        }
        self.prev_close = close;
        self.cumulative_log_return.exp().sub(Fp(ONE)).mul(Fp(HUNDRED))
    }

    /// Returns the unit to the state it was made in.
    pub fn reset(&mut self)
        ensures
            final(self)@ == CompoundLogReturnState::init(),
    {
        self.cumulative_log_return = Fp(ZERO);
        self.prev_close = Fp(NAN);
        self.update_count = 0;
    }
}

/// The compound log return as a step from state and input to state and output.
pub open spec fn compound_log_return_unit() -> spec_fn(CompoundLogReturnState, Fp) -> (
    CompoundLogReturnState,
    Fp,
) {
    |s: CompoundLogReturnState, x: Fp| s.step(x)
}

/// Reset idempotence: a unit that has seen `before`, is reset, and then
/// sees `replay` does what a new one does on `replay`.
pub proof fn lemma_compound_log_return_reset_replays(before: Seq<Fp>, replay: Seq<Fp>)
    ensures
        ({
            let new = CompoundLogReturnState::init();
            let s = run(compound_log_return_unit(), new, before).0;
            run(compound_log_return_unit(), CompoundLogReturnState::init(), replay)
                == run(compound_log_return_unit(), new, replay)
        }),
{
    lemma_reset_replays(
        compound_log_return_unit(),
        |s: CompoundLogReturnState| CompoundLogReturnState::init(),
        CompoundLogReturnState::init(),
        before,
        replay,
    );
}

} // verus!
