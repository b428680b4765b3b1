//! Streaming volume indicators.

use vstd::prelude::*;
use crate::fp::{Fp, NAN, ZERO, ONE, TWO, THOUSAND};
use crate::series::{sum, sum_of, bump, bumped};
use crate::window::{Window, slide};
use crate::streaming::trend::{SMAStreaming, SmaState, EMAStreaming, EmaState};
use crate::streaming::run::{run, lemma_quiet_before, lemma_reset_replays};
use crate::formulas::{
    ease_of_movement, ease_of_movement_of, ema_alpha, money_flow_multiplier,
    money_flow_multiplier_of, relative_change, smooth, smoothed, strength_index, strength_index_of,
    typical, typical_price, volume_weighted,
};

verus! {

// ---------------------------------------------------------------------------
// Money flow index
// ---------------------------------------------------------------------------

/// State of the money flow index: the last positive and negative money
/// flows and the previous typical price.
pub struct MfiState {
    pub window: nat,
    pub positive: Seq<Fp>,
    pub negative: Seq<Fp>,
    pub prev_tp: Fp,
}

impl MfiState {
    /// The state of a new unit.
    pub open spec fn init(window: nat) -> MfiState {
        MfiState { window, positive: Seq::empty(), negative: Seq::empty(), prev_tp: Fp(NAN) }
    }

    pub open spec fn valid(self) -> bool {
        &&& self.window >= 1
        &&& self.positive.len() <= self.window
        &&& self.negative.len() == self.positive.len()
    }

    /// The raw money flow of a bar, as its positive and its negative part: it
    /// is positive where the typical price rose, negative where it fell, and
    /// neither on the first bar or where the price stood still.
    pub open spec fn flows(self, tp: Fp, volume: Fp) -> (Fp, Fp) {
        let rmf = tp.mul_spec(volume);
        if self.prev_tp.nan() {
            (Fp(ZERO), Fp(ZERO))
        } else if tp.gt_spec(self.prev_tp) {
            (rmf, Fp(ZERO))
        } else if tp.lt_spec(self.prev_tp) {
            (Fp(ZERO), rmf)
        } else {
            (Fp(ZERO), Fp(ZERO))
        }
    }

    /// Undefined until `window` bars have arrived; then the strength index
    /// of the positive flows' sum against the negative flows' sum.
    pub open spec fn step(self, high: Fp, low: Fp, close: Fp, volume: Fp) -> (MfiState, Fp) {
        let tp = typical(high, low, close);
        let (p, n) = self.flows(tp, volume);
        let positive = slide(self.positive, p, self.window);
        let negative = slide(self.negative, n, self.window);
        let out = if positive.len() < self.window {
            Fp(NAN)
        } else {
            strength_index(sum(positive), sum(negative))
        };
        (MfiState { window: self.window, positive, negative, prev_tp: tp }, out)
    }
}

/// Streaming money flow index.
pub struct MFIStreaming {
    window: usize,
    positive_mf_buffer: Window,
    negative_mf_buffer: Window,
    prev_tp: Fp,
}

impl View for MFIStreaming {
    type V = MfiState;

    closed spec fn view(&self) -> MfiState {
        MfiState {
            window: self.window as nat,
            positive: self.positive_mf_buffer@,
            negative: self.negative_mf_buffer@,
            prev_tp: self.prev_tp,
        }
    }
}

impl MFIStreaming {
    /// What the unit keeps true of its own fields between calls.
    pub closed spec fn wf(&self) -> bool {
        &&& self.window >= 1
        &&& self.positive_mf_buffer.wf()
        &&& self.negative_mf_buffer.wf()
        &&& self.positive_mf_buffer.capacity() == self.window
        &&& self.negative_mf_buffer.capacity() == self.window
        &&& self.negative_mf_buffer@.len() == self.positive_mf_buffer@.len()
    }

    pub fn new(window: usize) -> (r: Self)
        requires
            window >= 1,
        ensures
            r.wf(),
            r@ == MfiState::init(window as nat),
    {
        MFIStreaming {
            window,
            positive_mf_buffer: Window::new(window),
            negative_mf_buffer: Window::new(window),
            prev_tp: Fp(NAN),
        }
    }

    pub fn update(&mut self, high: Fp, low: Fp, close: Fp, volume: Fp) -> (r: Fp)
        requires
            old(self).wf(),
        ensures
            final(self).wf(),
            final(self)@.valid(),
            (final(self)@, r) == old(self)@.step(high, low, close, volume),
    {
        let tp = typical_price(high, low, close);
        let rmf = tp.mul(volume);
        let (positive_mf, negative_mf) = if self.prev_tp.is_nan() {
            (Fp(ZERO), Fp(ZERO))
        } else if tp.gt(self.prev_tp) {
            (rmf, Fp(ZERO))
        } else if tp.lt(self.prev_tp) {
            (Fp(ZERO), rmf)
        } else {
            (Fp(ZERO), Fp(ZERO))
        };
        self.positive_mf_buffer.push(positive_mf);
        self.negative_mf_buffer.push(negative_mf);
        self.prev_tp = tp;
        if self.positive_mf_buffer.len() < self.window {
            Fp(NAN)
        } else {
            let n = self.positive_mf_buffer.len();
            let pos_sum = sum_of(&self.positive_mf_buffer, 0, n);
            let neg_sum = sum_of(&self.negative_mf_buffer, 0, n);
            strength_index_of(pos_sum, neg_sum)
        }
    }

    /// Returns the unit to the state it was made in.
    pub fn reset(&mut self)
        requires
            old(self).wf(),
        ensures
            final(self).wf(),
            final(self)@ == MfiState::init(old(self)@.window),
    {
        self.positive_mf_buffer.clear();
        self.negative_mf_buffer.clear();
        self.prev_tp = Fp(NAN);
    }
}

/// The money flow index as a step from state and input to state and output.
pub open spec fn mfi_unit() -> spec_fn(MfiState, (Fp, Fp, Fp, Fp)) -> (MfiState, Fp) {
    |s: MfiState, x: (Fp, Fp, Fp, Fp)| s.step(x.0, x.1, x.2, x.3)
}

/// Warm-up: a new money flow index gives nothing before its `window`-th bar.
pub proof fn lemma_mfi_warm_up(window: nat, inputs: Seq<(Fp, Fp, Fp, Fp)>, k: int)
    requires
        0 <= k < inputs.len(),
        k + 1 < window,
    ensures
        run(mfi_unit(), MfiState::init(window), inputs).1[k] == Fp(NAN),
{
    lemma_quiet_before(
        mfi_unit(),
        |s: MfiState| s.window == window,
        |s: MfiState| s.positive.len(),
        |o: Fp| o == Fp(NAN),
        window,
        MfiState::init(window),
        inputs,
        k,
    );
}

/// Reset idempotence: a unit that has seen `before`, is reset, and then
/// sees `replay` does what a new one does on `replay`.
pub proof fn lemma_mfi_reset_replays(
    window: nat,
    before: Seq<(Fp, Fp, Fp, Fp)>,
    replay: Seq<(Fp, Fp, Fp, Fp)>,
)
    ensures
        ({
            let new = MfiState::init(window);
            let s = run(mfi_unit(), new, before).0;
            run(mfi_unit(), MfiState::init(s.window), replay) == run(mfi_unit(), new, replay)
        }),
{
    lemma_reset_replays(
        mfi_unit(),
        |s: MfiState| MfiState::init(s.window),
        MfiState::init(window),
        before,
        replay,
    );
}

// ---------------------------------------------------------------------------
// Accumulation/distribution index
// ---------------------------------------------------------------------------

/// State of the accumulation/distribution index: the running line.
pub struct AccDistState {
    pub ad_line: Fp,
}

impl AccDistState {
    /// The state of a new unit.
    pub open spec fn init() -> AccDistState {
        AccDistState { ad_line: Fp(ZERO) }
    }

    /// The line grows by the bar's volume times its money flow multiplier.
    pub open spec fn step(self, high: Fp, low: Fp, close: Fp, volume: Fp) -> (AccDistState, Fp) {
        let line = self.ad_line.add_spec(
            money_flow_multiplier(high, low, close).mul_spec(volume),
        );
        (AccDistState { ad_line: line }, line)
    }
}

/// Streaming accumulation/distribution index.
pub struct AccDistStreaming {
    ad_line: Fp,
}

impl View for AccDistStreaming {
    type V = AccDistState;

    closed spec fn view(&self) -> AccDistState {
        AccDistState { ad_line: self.ad_line }
    }
}

impl AccDistStreaming {
    pub fn new() -> (r: Self)
        ensures
            r@ == AccDistState::init(),
    {
        AccDistStreaming { ad_line: Fp(ZERO) }
    }

    pub fn update(&mut self, high: Fp, low: Fp, close: Fp, volume: Fp) -> (r: Fp)
        ensures
            (final(self)@, r) == old(self)@.step(high, low, close, volume),
    {
        let mfm = money_flow_multiplier_of(high, low, close);
        let mfv = mfm.mul(volume);
        self.ad_line = self.ad_line.add(mfv);
        self.ad_line
    }

    /// Returns the unit to the state it was made in.
    pub fn reset(&mut self)
        ensures
            final(self)@ == AccDistState::init(),
    {
        self.ad_line = Fp(ZERO);
    }
}

/// The accumulation/distribution index as a step from state and input to state and output.
pub open spec fn acc_dist_unit() -> spec_fn(AccDistState, (Fp, Fp, Fp, Fp)) -> (AccDistState, Fp) {
    |s: AccDistState, x: (Fp, Fp, Fp, Fp)| s.step(x.0, x.1, x.2, x.3)
}

/// Reset idempotence: a unit that has seen `before`, is reset, and then
/// sees `replay` does what a new one does on `replay`.
pub proof fn lemma_acc_dist_reset_replays(
    before: Seq<(Fp, Fp, Fp, Fp)>,
    replay: Seq<(Fp, Fp, Fp, Fp)>,
)
    ensures
        ({
            let new = AccDistState::init();
            let s = run(acc_dist_unit(), new, before).0;
            run(acc_dist_unit(), AccDistState::init(), replay) == run(acc_dist_unit(), new, replay)
        }),
{
    lemma_reset_replays(
        acc_dist_unit(),
        |s: AccDistState| AccDistState::init(),
        AccDistState::init(),
        before,
        replay,
    );
}

// ---------------------------------------------------------------------------
// On-balance volume
// ---------------------------------------------------------------------------

/// State of the on-balance volume: the running line, the previous close, and
/// the number of bars seen.
pub struct ObvState {
    pub obv_line: Fp,
    pub prev_close: Fp,
    pub count: nat,
}

impl ObvState {
    /// The state of a new unit.
    pub open spec fn init() -> ObvState {
        ObvState { obv_line: Fp(ZERO), prev_close: Fp(NAN), count: 0 }
    }

    /// The first bar's volume starts the line. After it, the volume is added
    /// where the close rose, taken away where it fell, and left out where it
    /// stood still.
    pub open spec fn step(self, close: Fp, volume: Fp) -> (ObvState, Fp) {
        let count = bump(self.count);
        let line = if count == 1 {
            volume
        } else if close.gt_spec(self.prev_close) {
            self.obv_line.add_spec(volume)
        } else if close.lt_spec(self.prev_close) {
            self.obv_line.sub_spec(volume)
        } else {
            self.obv_line
        };
        (ObvState { obv_line: line, prev_close: close, count }, line)
    }
}

/// Streaming on-balance volume.
pub struct OBVStreaming {
    obv_line: Fp,
    prev_close: Fp,
    update_count: usize,
}

impl View for OBVStreaming {
    type V = ObvState;

    closed spec fn view(&self) -> ObvState {
        ObvState {
            obv_line: self.obv_line,
            prev_close: self.prev_close,
            count: self.update_count as nat,
        }
    }
}

impl OBVStreaming {
    pub fn new() -> (r: Self)
        ensures
            r@ == ObvState::init(),
    {
        OBVStreaming { obv_line: Fp(ZERO), prev_close: Fp(NAN), update_count: 0 }
    }

    pub fn update(&mut self, close: Fp, volume: Fp) -> (r: Fp)
        ensures
            (final(self)@, r) == old(self)@.step(close, volume),
    {
        self.update_count = bumped(self.update_count);
        if self.update_count == 1 {
            self.obv_line = volume;
        } else {
            if close.gt(self.prev_close) {
                self.obv_line = self.obv_line.add(volume);
            } else if close.lt(self.prev_close) {
                self.obv_line = self.obv_line.sub(volume);
            }
        }
        self.prev_close = close;
        self.obv_line
    }

    /// Returns the unit to the state it was made in.
    pub fn reset(&mut self)
        ensures
            final(self)@ == ObvState::init(),
    {
        self.obv_line = Fp(ZERO);
        self.prev_close = Fp(NAN);
        self.update_count = 0;
    }
}

/// The on-balance volume as a step from state and input to state and output.
pub open spec fn obv_unit() -> spec_fn(ObvState, (Fp, Fp)) -> (ObvState, Fp) {
    |s: ObvState, x: (Fp, Fp)| s.step(x.0, x.1)
}

/// Reset idempotence: a unit that has seen `before`, is reset, and then
/// sees `replay` does what a new one does on `replay`.
pub proof fn lemma_obv_reset_replays(before: Seq<(Fp, Fp)>, replay: Seq<(Fp, Fp)>)
    ensures
        ({
            let new = ObvState::init();
            let s = run(obv_unit(), new, before).0;
            run(obv_unit(), ObvState::init(), replay) == run(obv_unit(), new, replay)
        }),
{
    lemma_reset_replays(
        obv_unit(),
        |s: ObvState| ObvState::init(),
        ObvState::init(),
        before,
        replay,
    );
}

// ---------------------------------------------------------------------------
// Chaikin money flow, volume weighted average price
// ---------------------------------------------------------------------------

/// State of an indicator over the last volume-weighted values and volumes.
pub struct FlowState {
    pub window: nat,
    pub flows: Seq<Fp>,
    pub volumes: Seq<Fp>,
}

impl FlowState {
    /// The state of a new unit.
    pub open spec fn init(window: nat) -> FlowState {
        FlowState { window, flows: Seq::empty(), volumes: Seq::empty() }
    }

    pub open spec fn valid(self) -> bool {
        &&& self.window >= 1
        &&& self.flows.len() <= self.window
        &&& self.volumes.len() == self.flows.len()
    }

    /// The state after a bar's flow and volume, and the ratio of the sums:
    /// undefined until `window` bars have arrived, zero where the volumes
    /// add up to zero.
    pub open spec fn pushed(self, flow: Fp, volume: Fp) -> (FlowState, Fp) {
        let flows = slide(self.flows, flow, self.window);
        let volumes = slide(self.volumes, volume, self.window);
        let out = if flows.len() < self.window {
            Fp(NAN)
        } else {
            volume_weighted(sum(flows), sum(volumes))
        };
        (FlowState { window: self.window, flows, volumes }, out)
    }

    /// Chaikin money flow: the flow of a bar is its volume times its money
    /// flow multiplier.
    pub open spec fn cmf_step(self, high: Fp, low: Fp, close: Fp, volume: Fp) -> (FlowState, Fp) {
        self.pushed(money_flow_multiplier(high, low, close).mul_spec(volume), volume)
    }

    /// Volume weighted average price: the flow of a bar is its volume times
    /// its typical price.
    pub open spec fn vwap_step(self, high: Fp, low: Fp, close: Fp, volume: Fp) -> (FlowState, Fp) {
        self.pushed(typical(high, low, close).mul_spec(volume), volume)
    }
}

/// Pushes a bar's flow and volume and gives the ratio of the windows' sums.
fn push_flow(flows: &mut Window, volumes: &mut Window, window: usize, flow: Fp, volume: Fp) -> (r:
    Fp)
    requires
        window >= 1,
        old(flows).wf(),
        old(volumes).wf(),
        old(flows).capacity() == window,
        old(volumes).capacity() == window,
        old(flows)@.len() == old(volumes)@.len(),
    ensures
        final(flows).wf(),
        final(volumes).wf(),
        final(flows).capacity() == window,
        final(volumes).capacity() == window,
        final(flows)@.len() == final(volumes)@.len(),
        final(flows)@.len() <= window,
        (
            FlowState { window: window as nat, flows: final(flows)@, volumes: final(volumes)@ },
            r,
        ) == (FlowState { window: window as nat, flows: old(flows)@, volumes: old(volumes)@ })
            .pushed(flow, volume),
{
    flows.push(flow);
    volumes.push(volume);
    if flows.len() < window {
        Fp(NAN)
    } else {
        let n = flows.len();
        let total = sum_of(&*flows, 0, n);
        let total_volume = sum_of(&*volumes, 0, n);
        if total_volume.ne(Fp(ZERO)) {
            total.div(total_volume)
        } else {
            Fp(ZERO)
        }
    }
}

/// Streaming Chaikin money flow.
pub struct CMFStreaming {
    window: usize,
    mfv_buffer: Window,
    volume_buffer: Window,
}

impl View for CMFStreaming {
    type V = FlowState;

    closed spec fn view(&self) -> FlowState {
        FlowState {
            window: self.window as nat,
            flows: self.mfv_buffer@,
            volumes: self.volume_buffer@,
        }
    }
}

impl CMFStreaming {
    /// What the unit keeps true of its own fields between calls.
    pub closed spec fn wf(&self) -> bool {
        &&& self.window >= 1
        &&& self.mfv_buffer.wf()
        &&& self.volume_buffer.wf()
        &&& self.mfv_buffer.capacity() == self.window
        &&& self.volume_buffer.capacity() == self.window
        &&& self.volume_buffer@.len() == self.mfv_buffer@.len()
    }

    pub fn new(window: usize) -> (r: Self)
        requires
            window >= 1,
        ensures
            r.wf(),
            r@ == FlowState::init(window as nat),
    {
        CMFStreaming { window, mfv_buffer: Window::new(window), volume_buffer: Window::new(window) }
    }

    pub fn update(&mut self, high: Fp, low: Fp, close: Fp, volume: Fp) -> (r: Fp)
        requires
            old(self).wf(),
        ensures
            final(self).wf(),
            final(self)@.valid(),
            (final(self)@, r) == old(self)@.cmf_step(high, low, close, volume),
    {
        let mfv = money_flow_multiplier_of(high, low, close).mul(volume);
        push_flow(&mut self.mfv_buffer, &mut self.volume_buffer, self.window, mfv, volume)
    }

    /// Returns the unit to the state it was made in.
    pub fn reset(&mut self)
        requires
            old(self).wf(),
        ensures
            final(self).wf(),
            final(self)@ == FlowState::init(old(self)@.window),
    {
        self.mfv_buffer.clear();
        self.volume_buffer.clear();
    }
}

/// The Chaikin money flow as a step from state and input to state and output.
pub open spec fn cmf_unit() -> spec_fn(FlowState, (Fp, Fp, Fp, Fp)) -> (FlowState, Fp) {
    |s: FlowState, x: (Fp, Fp, Fp, Fp)| s.cmf_step(x.0, x.1, x.2, x.3)
}

/// Warm-up: a new Chaikin money flow gives nothing before its `window`-th bar.
pub proof fn lemma_cmf_warm_up(window: nat, inputs: Seq<(Fp, Fp, Fp, Fp)>, k: int)
    requires
        0 <= k < inputs.len(),
        k + 1 < window,
    ensures
        run(cmf_unit(), FlowState::init(window), inputs).1[k] == Fp(NAN),
{
    lemma_quiet_before(
        cmf_unit(),
        |s: FlowState| s.window == window,
        |s: FlowState| s.flows.len(),
        |o: Fp| o == Fp(NAN),
        window,
        FlowState::init(window),
        inputs,
        k,
    );
}

/// Reset idempotence: a unit that has seen `before`, is reset, and then
/// sees `replay` does what a new one does on `replay`.
pub proof fn lemma_cmf_reset_replays(
    window: nat,
    before: Seq<(Fp, Fp, Fp, Fp)>,
    replay: Seq<(Fp, Fp, Fp, Fp)>,
)
    ensures
        ({
            let new = FlowState::init(window);
            let s = run(cmf_unit(), new, before).0;
            run(cmf_unit(), FlowState::init(s.window), replay) == run(cmf_unit(), new, replay)
        }),
{
    lemma_reset_replays(
        cmf_unit(),
        |s: FlowState| FlowState::init(s.window),
        FlowState::init(window),
        before,
        replay,
    );
}

/// Streaming volume weighted average price.
pub struct VWAPStreaming {
    window: usize,
    tpv_buffer: Window,
    volume_buffer: Window,
}

impl View for VWAPStreaming {
    type V = FlowState;

    closed spec fn view(&self) -> FlowState {
        FlowState {
            window: self.window as nat,
            flows: self.tpv_buffer@,
            volumes: self.volume_buffer@,
        }
    }
}

impl VWAPStreaming {
    /// What the unit keeps true of its own fields between calls.
    pub closed spec fn wf(&self) -> bool {
        &&& self.window >= 1
        &&& self.tpv_buffer.wf()
        &&& self.volume_buffer.wf()
        &&& self.tpv_buffer.capacity() == self.window
        &&& self.volume_buffer.capacity() == self.window
        &&& self.volume_buffer@.len() == self.tpv_buffer@.len()
    }

    pub fn new(window: usize) -> (r: Self)
        requires
            window >= 1,
        ensures
            r.wf(),
            r@ == FlowState::init(window as nat),
    {
        VWAPStreaming {
            window,
            tpv_buffer: Window::new(window),
            volume_buffer: Window::new(window),
        }
    }

    pub fn update(&mut self, high: Fp, low: Fp, close: Fp, volume: Fp) -> (r: Fp)
        requires
            old(self).wf(),
        ensures
            final(self).wf(),
            final(self)@.valid(),
            (final(self)@, r) == old(self)@.vwap_step(high, low, close, volume),
    {
        let tpv = typical_price(high, low, close).mul(volume);
        push_flow(&mut self.tpv_buffer, &mut self.volume_buffer, self.window, tpv, volume)
    }

    /// Returns the unit to the state it was made in.
    pub fn reset(&mut self)
        requires
            old(self).wf(),
        ensures
            final(self).wf(),
            final(self)@ == FlowState::init(old(self)@.window),
    {
        self.tpv_buffer.clear();
        self.volume_buffer.clear();
    }
}

/// The volume weighted average price as a step from state and input to state and output.
pub open spec fn vwap_unit() -> spec_fn(FlowState, (Fp, Fp, Fp, Fp)) -> (FlowState, Fp) {
    |s: FlowState, x: (Fp, Fp, Fp, Fp)| s.vwap_step(x.0, x.1, x.2, x.3)
}

/// Warm-up: a new volume weighted average price gives nothing before its `window`-th bar.
pub proof fn lemma_vwap_warm_up(window: nat, inputs: Seq<(Fp, Fp, Fp, Fp)>, k: int)
    requires
        0 <= k < inputs.len(),
        k + 1 < window,
    ensures
        run(vwap_unit(), FlowState::init(window), inputs).1[k] == Fp(NAN),
{
    lemma_quiet_before(
        vwap_unit(),
        |s: FlowState| s.window == window,
        |s: FlowState| s.flows.len(),
        |o: Fp| o == Fp(NAN),
        window,
        FlowState::init(window),
        inputs,
        k,
    );
}

/// Reset idempotence: a unit that has seen `before`, is reset, and then
/// sees `replay` does what a new one does on `replay`.
pub proof fn lemma_vwap_reset_replays(
    window: nat,
    before: Seq<(Fp, Fp, Fp, Fp)>,
    replay: Seq<(Fp, Fp, Fp, Fp)>,
)
    ensures
        ({
            let new = FlowState::init(window);
            let s = run(vwap_unit(), new, before).0;
            run(vwap_unit(), FlowState::init(s.window), replay) == run(vwap_unit(), new, replay)
        }),
{
    lemma_reset_replays(
        vwap_unit(),
        |s: FlowState| FlowState::init(s.window),
        FlowState::init(window),
        before,
        replay,
    );
}

// ---------------------------------------------------------------------------
// Force index
// ---------------------------------------------------------------------------

/// State of the force index: the previous close, the smoothed force, and the
/// number of bars seen.
pub struct ForceIndexState {
    pub window: nat,
    pub alpha: Fp,
    pub prev_close: Fp,
    pub current: Fp,
    pub count: nat,
}

impl ForceIndexState {
    /// The state of a new unit.
    pub open spec fn init(window: nat) -> ForceIndexState {
        ForceIndexState {
            window,
            alpha: ema_alpha(window),
            prev_close: Fp(NAN),
            current: Fp(NAN),
            count: 0,
        }
    }

    /// The first bar only seeds the previous close. The force of a later bar
    /// is the change of the close times the volume; the first force seeds the
    /// average, later ones are smoothed into it, and it is reported once
    /// `window` bars have been seen.
    pub open spec fn step(self, close: Fp, volume: Fp) -> (ForceIndexState, Fp) {
        let count = bump(self.count);
        if count == 1 {
            (ForceIndexState { prev_close: close, count, ..self }, Fp(NAN))
        } else {
            let force = close.sub_spec(self.prev_close).mul_spec(volume);
            let current = if self.current.nan() {
                force
            } else {
                smooth(self.alpha, force, self.current)
            };
            let out = if count >= self.window {
                current
            } else {
                Fp(NAN)
            };
            (ForceIndexState { prev_close: close, current, count, ..self }, out)
        }
    }
}

/// Streaming force index.
pub struct ForceIndexStreaming {
    window: usize,
    alpha: Fp,
    prev_close: Fp,
    current_value: Fp,
    update_count: usize,
}

impl View for ForceIndexStreaming {
    type V = ForceIndexState;

    closed spec fn view(&self) -> ForceIndexState {
        ForceIndexState {
            window: self.window as nat,
            alpha: self.alpha,
            prev_close: self.prev_close,
            current: self.current_value,
            count: self.update_count as nat,
        }
    }
}

impl ForceIndexStreaming {
    /// What the unit keeps true of its own fields between calls.
    pub closed spec fn wf(&self) -> bool {
        &&& self.window >= 1
        &&& self.alpha == ema_alpha(self.window as nat)
    }

    pub fn new(window: usize) -> (r: Self)
        requires
            window >= 1,
        ensures
            r.wf(),
            r@ == ForceIndexState::init(window as nat),
    {
        ForceIndexStreaming {
            window,
            alpha: Fp(TWO).div(Fp::from_usize(window).add(Fp(ONE))),
            prev_close: Fp(NAN),
            current_value: Fp(NAN),
            update_count: 0,
        }
    }

    pub fn update(&mut self, close: Fp, volume: Fp) -> (r: Fp)
        requires
            old(self).wf(),
        ensures
            final(self).wf(),
            (final(self)@, r) == old(self)@.step(close, volume),
    {
        self.update_count = bumped(self.update_count);
        if self.update_count == 1 {
            self.prev_close = close;
            return Fp(NAN);
        }
        let force_value = close.sub(self.prev_close).mul(volume);
        if self.current_value.is_nan() {
            self.current_value = force_value;
        } else {
            self.current_value = smoothed(self.alpha, force_value, self.current_value);
        }
        self.prev_close = close;
        if self.update_count >= self.window {
            self.current_value
        } else {
            Fp(NAN)
        }
    }

    /// Returns the unit to the state it was made in.
    pub fn reset(&mut self)
        requires
            old(self).wf(),
        ensures
            final(self).wf(),
            final(self)@.alpha == old(self)@.alpha,
            final(self)@ == ForceIndexState::init(old(self)@.window),
    {
        self.prev_close = Fp(NAN);
        self.current_value = Fp(NAN);
        self.update_count = 0;
    }
}

/// The force index as a step from state and input to state and output.
pub open spec fn force_index_unit() -> spec_fn(ForceIndexState, (Fp, Fp)) -> (ForceIndexState, Fp) {
    |s: ForceIndexState, x: (Fp, Fp)| s.step(x.0, x.1)
}

/// Warm-up: a new force index gives nothing before its `window`-th bar.
pub proof fn lemma_force_index_warm_up(window: nat, inputs: Seq<(Fp, Fp)>, k: int)
    requires
        0 <= k < inputs.len(),
        k + 1 < window,
    ensures
        run(force_index_unit(), ForceIndexState::init(window), inputs).1[k] == Fp(NAN),
{
    lemma_quiet_before(
        force_index_unit(),
        |s: ForceIndexState| s.window == window,
        |s: ForceIndexState| s.count,
        |o: Fp| o == Fp(NAN),
        window,
        ForceIndexState::init(window),
        inputs,
        k,
    );
}

/// Reset idempotence: a unit that has seen `before`, is reset, and then
/// sees `replay` does what a new one does on `replay`.
pub proof fn lemma_force_index_reset_replays(
    window: nat,
    before: Seq<(Fp, Fp)>,
    replay: Seq<(Fp, Fp)>,
)
    ensures
        ({
            let new = ForceIndexState::init(window);
            let s = run(force_index_unit(), new, before).0;
            run(force_index_unit(), ForceIndexState::init(s.window), replay)
                == run(force_index_unit(), new, replay)
        }),
{
    lemma_reset_replays(
        force_index_unit(),
        |s: ForceIndexState| ForceIndexState::init(s.window),
        ForceIndexState::init(window),
        before,
        replay,
    );
}

// ---------------------------------------------------------------------------
// Ease of movement
// ---------------------------------------------------------------------------

/// State of the ease of movement: the previous bar and the number of bars
/// seen.
pub struct EomState {
    pub prev_high: Fp,
    pub prev_low: Fp,
    pub count: nat,
}

impl EomState {
    /// The state of a new unit.
    pub open spec fn init() -> EomState {
        EomState { prev_high: Fp(NAN), prev_low: Fp(NAN), count: 0 }
    }

    /// The first bar only seeds the previous bar; the value is left raw.
    pub open spec fn step(self, high: Fp, low: Fp, volume: Fp) -> (EomState, Fp) {
        let count = bump(self.count);
        let out = if count == 1 {
            Fp(NAN)
        } else {
            ease_of_movement(self.prev_high, self.prev_low, high, low, volume)
        };
        (EomState { prev_high: high, prev_low: low, count }, out)
    }
}

/// Streaming ease of movement.
pub struct EOMStreaming {
    prev_high: Fp,
    prev_low: Fp,
    update_count: usize,
}

impl View for EOMStreaming {
    type V = EomState;

    closed spec fn view(&self) -> EomState {
        EomState {
            prev_high: self.prev_high,
            prev_low: self.prev_low,
            count: self.update_count as nat,
        }
    }
}

impl EOMStreaming {
    pub fn new() -> (r: Self)
        ensures
            r@ == EomState::init(),
    {
        EOMStreaming { prev_high: Fp(NAN), prev_low: Fp(NAN), update_count: 0 }
    }

    pub fn update(&mut self, high: Fp, low: Fp, volume: Fp) -> (r: Fp)
        ensures
            (final(self)@, r) == old(self)@.step(high, low, volume),
    {
        self.update_count = bumped(self.update_count);
        if self.update_count == 1 {
            self.prev_high = high;
            self.prev_low = low;
            return Fp(NAN);
        }
        let result = ease_of_movement_of(self.prev_high, self.prev_low, high, low, volume);
        self.prev_high = high;
        self.prev_low = low;
        result
    }

    /// Returns the unit to the state it was made in.
    pub fn reset(&mut self)
        ensures
            final(self)@ == EomState::init(),
    {
        self.prev_high = Fp(NAN);
        self.prev_low = Fp(NAN);
        self.update_count = 0;
    }
}

/// The ease of movement as a step from state and input to state and output.
pub open spec fn eom_unit() -> spec_fn(EomState, (Fp, Fp, Fp)) -> (EomState, Fp) {
    |s: EomState, x: (Fp, Fp, Fp)| s.step(x.0, x.1, x.2)
}

/// Reset idempotence: a unit that has seen `before`, is reset, and then
/// sees `replay` does what a new one does on `replay`.
pub proof fn lemma_eom_reset_replays(before: Seq<(Fp, Fp, Fp)>, replay: Seq<(Fp, Fp, Fp)>)
    ensures
        ({
            let new = EomState::init();
            let s = run(eom_unit(), new, before).0;
            run(eom_unit(), EomState::init(), replay) == run(eom_unit(), new, replay)
        }),
{
    lemma_reset_replays(
        eom_unit(),
        |s: EomState| EomState::init(),
        EomState::init(),
        before,
        replay,
    );
}

// ---------------------------------------------------------------------------
// Volume price trend
// ---------------------------------------------------------------------------

/// State of the volume price trend: the running line, the previous close,
/// and the number of bars seen.
pub struct VptState {
    pub vpt_line: Fp,
    pub prev_close: Fp,
    pub count: nat,
}

impl VptState {
    /// The state of a new unit.
    pub open spec fn init() -> VptState {
        VptState { vpt_line: Fp(ZERO), prev_close: Fp(NAN), count: 0 }
    }

    /// The line starts at zero. Each later bar adds its volume times the
    /// relative change of the close, unless the previous close is zero.
    pub open spec fn step(self, close: Fp, volume: Fp) -> (VptState, Fp) {
        let count = bump(self.count);
        let line = if count == 1 {
            Fp(ZERO)
        } else if self.prev_close.ne_spec(Fp(ZERO)) {
            self.vpt_line.add_spec(volume.mul_spec(relative_change(self.prev_close, close)))
        } else {
            self.vpt_line
        };
        (VptState { vpt_line: line, prev_close: close, count }, line)
    }
}

/// Streaming volume price trend.
pub struct VPTStreaming {
    vpt_line: Fp,
    prev_close: Fp,
    update_count: usize,
}

impl View for VPTStreaming {
    type V = VptState;

    closed spec fn view(&self) -> VptState {
        VptState {
            vpt_line: self.vpt_line,
            prev_close: self.prev_close,
            count: self.update_count as nat,
        }
    }
}

impl VPTStreaming {
    pub fn new() -> (r: Self)
        ensures
            r@ == VptState::init(),
    {
        VPTStreaming { vpt_line: Fp(ZERO), prev_close: Fp(NAN), update_count: 0 }
    }

    pub fn update(&mut self, close: Fp, volume: Fp) -> (r: Fp)
        ensures
            (final(self)@, r) == old(self)@.step(close, volume),
    {
        self.update_count = bumped(self.update_count);
        if self.update_count == 1 {
            self.vpt_line = Fp(ZERO);
        } else if self.prev_close.ne(Fp(ZERO)) {
            let pct_change = close.sub(self.prev_close).div(self.prev_close);
            let vpt_change = volume.mul(pct_change);
            self.vpt_line = self.vpt_line.add(vpt_change);
        }
        self.prev_close = close;
        self.vpt_line
    }

    /// Returns the unit to the state it was made in.
    pub fn reset(&mut self)
        ensures
            final(self)@ == VptState::init(),
    {
        self.vpt_line = Fp(ZERO);
        self.prev_close = Fp(NAN);
        self.update_count = 0;
    }
}

/// The volume price trend as a step from state and input to state and output.
pub open spec fn vpt_unit() -> spec_fn(VptState, (Fp, Fp)) -> (VptState, Fp) {
    |s: VptState, x: (Fp, Fp)| s.step(x.0, x.1)
}

/// Reset idempotence: a unit that has seen `before`, is reset, and then
/// sees `replay` does what a new one does on `replay`.
pub proof fn lemma_vpt_reset_replays(before: Seq<(Fp, Fp)>, replay: Seq<(Fp, Fp)>)
    ensures
        ({
            let new = VptState::init();
            let s = run(vpt_unit(), new, before).0;
            run(vpt_unit(), VptState::init(), replay) == run(vpt_unit(), new, replay)
        }),
{
    lemma_reset_replays(
        vpt_unit(),
        |s: VptState| VptState::init(),
        VptState::init(),
        before,
        replay,
    );
}

// ---------------------------------------------------------------------------
// Negative volume index
// ---------------------------------------------------------------------------

/// State of the negative volume index: the running line, the previous bar,
/// and the number of bars seen.
pub struct NviState {
    pub nvi_line: Fp,
    pub prev_close: Fp,
    pub prev_volume: Fp,
    pub count: nat,
}

impl NviState {
    /// The state of a new unit.
    pub open spec fn init() -> NviState {
        NviState { nvi_line: Fp(THOUSAND), prev_close: Fp(NAN), prev_volume: Fp(NAN), count: 0 }
    }

    /// The line starts at a thousand. On each later bar whose volume fell,
    /// it is scaled by one plus the relative change of the close, unless the
    /// previous close is zero.
    pub open spec fn step(self, close: Fp, volume: Fp) -> (NviState, Fp) {
        let count = bump(self.count);
        let line = if count == 1 {
            Fp(THOUSAND)
        } else if volume.lt_spec(self.prev_volume) && self.prev_close.ne_spec(Fp(ZERO)) {
            self.nvi_line.mul_spec(Fp(ONE).add_spec(relative_change(self.prev_close, close)))
        } else {
            self.nvi_line
        };
        (NviState { nvi_line: line, prev_close: close, prev_volume: volume, count }, line)
    }
}

/// Streaming negative volume index.
pub struct NVIStreaming {
    nvi_line: Fp,
    prev_close: Fp,
    prev_volume: Fp,
    update_count: usize,
}

impl View for NVIStreaming {
    type V = NviState;

    closed spec fn view(&self) -> NviState {
        NviState {
            nvi_line: self.nvi_line,
            prev_close: self.prev_close,
            prev_volume: self.prev_volume,
            count: self.update_count as nat,
        }
    }
}

impl NVIStreaming {
    pub fn new() -> (r: Self)
        ensures
            r@ == NviState::init(),
    {
        NVIStreaming {
            nvi_line: Fp(THOUSAND),
            prev_close: Fp(NAN),
            prev_volume: Fp(NAN),
            update_count: 0,
        }
    }

    pub fn update(&mut self, close: Fp, volume: Fp) -> (r: Fp)
        ensures
            (final(self)@, r) == old(self)@.step(close, volume),
    {
        self.update_count = bumped(self.update_count);
        if self.update_count == 1 {
            self.nvi_line = Fp(THOUSAND);
        } else if volume.lt(self.prev_volume) && self.prev_close.ne(Fp(ZERO)) {
            let pct_change = close.sub(self.prev_close).div(self.prev_close);
            self.nvi_line = self.nvi_line.mul(Fp(ONE).add(pct_change));
        }
        self.prev_close = close;
        self.prev_volume = volume;
        self.nvi_line
    }

    /// Returns the unit to the state it was made in.
    pub fn reset(&mut self)
        ensures
            final(self)@ == NviState::init(),
    {
        self.nvi_line = Fp(THOUSAND);
        self.prev_close = Fp(NAN);
        self.prev_volume = Fp(NAN);
        self.update_count = 0;
    }
}

/// The negative volume index as a step from state and input to state and output.
pub open spec fn nvi_unit() -> spec_fn(NviState, (Fp, Fp)) -> (NviState, Fp) {
    |s: NviState, x: (Fp, Fp)| s.step(x.0, x.1)
}

/// Reset idempotence: a unit that has seen `before`, is reset, and then
/// sees `replay` does what a new one does on `replay`.
pub proof fn lemma_nvi_reset_replays(before: Seq<(Fp, Fp)>, replay: Seq<(Fp, Fp)>)
    ensures
        ({
            let new = NviState::init();
            let s = run(nvi_unit(), new, before).0;
            run(nvi_unit(), NviState::init(), replay) == run(nvi_unit(), new, replay)
        }),
{
    lemma_reset_replays(
        nvi_unit(),
        |s: NviState| NviState::init(),
        NviState::init(),
        before,
        replay,
    );
}

// ---------------------------------------------------------------------------
// Volume weighted exponential moving average
// ---------------------------------------------------------------------------

/// State of the volume weighted exponential average: a volume weighted
/// average price and the average that smooths it.
pub struct VwemaState {
    pub vwap: FlowState,
    pub ema: EmaState,
}

impl VwemaState {
    /// The state of a new unit.
    pub open spec fn init(vwma_period: nat, ema_period: nat) -> VwemaState {
        VwemaState { vwap: FlowState::init(vwma_period), ema: EmaState::init(ema_period) }
    }

    pub open spec fn valid(self) -> bool {
        self.vwap.valid()
    }

    /// Undefined, and the average not fed, while the volume weighted price
    /// is undefined.
    pub open spec fn step(self, high: Fp, low: Fp, close: Fp, volume: Fp) -> (VwemaState, Fp) {
        let (vwap, v) = self.vwap.vwap_step(high, low, close, volume);
        if v.nan() {
            (VwemaState { vwap, ema: self.ema }, Fp(NAN))
        } else {
            let (ema, e) = self.ema.step(v);
            (VwemaState { vwap, ema }, e)
        }
    }
}

/// Streaming volume weighted exponential average.
pub struct VWEMAStreaming {
    vwap_stream: VWAPStreaming,
    ema_stream: EMAStreaming,
}

impl View for VWEMAStreaming {
    type V = VwemaState;

    closed spec fn view(&self) -> VwemaState {
        VwemaState { vwap: self.vwap_stream@, ema: self.ema_stream@ }
    }
}

impl VWEMAStreaming {
    /// What the unit keeps true of its own fields between calls.
    pub closed spec fn wf(&self) -> bool {
        self.vwap_stream.wf() && self.ema_stream.wf()
    }

    pub fn new(vwma_period: usize, ema_period: usize) -> (r: Self)
        requires
            vwma_period >= 1,
            ema_period >= 1,
        ensures
            r.wf(),
            r@ == VwemaState::init(vwma_period as nat, ema_period as nat),
    {
        VWEMAStreaming {
            vwap_stream: VWAPStreaming::new(vwma_period),
            ema_stream: EMAStreaming::new(ema_period),
        }
    }

    pub fn update(&mut self, high: Fp, low: Fp, close: Fp, volume: Fp) -> (r: Fp)
        requires
            old(self).wf(),
        ensures
            final(self).wf(),
            final(self)@.valid(),
            (final(self)@, r) == old(self)@.step(high, low, close, volume),
    {
        let vwap_value = self.vwap_stream.update(high, low, close, volume);
        if vwap_value.is_nan() {
            Fp(NAN)
        } else {
            self.ema_stream.update(vwap_value)
        }
    }

    /// Returns the unit to the state it was made in.
    pub fn reset(&mut self)
        requires
            old(self).wf(),
        ensures
            final(self).wf(),
            final(self)@.ema.alpha == old(self)@.ema.alpha,
            final(self)@ == VwemaState::init(old(self)@.vwap.window, old(self)@.ema.window),
    {
        self.vwap_stream.reset();
        self.ema_stream.reset();
    }
}

/// The volume weighted exponential average as a step from state and input to state and output.
pub open spec fn vwema_unit() -> spec_fn(VwemaState, (Fp, Fp, Fp, Fp)) -> (VwemaState, Fp) {
    |s: VwemaState, x: (Fp, Fp, Fp, Fp)| s.step(x.0, x.1, x.2, x.3)
}

/// Warm-up: a new volume weighted exponential average gives nothing before
/// its `vwma_period`-th bar.
pub proof fn lemma_vwema_warm_up(
    vwma_period: nat,
    ema_period: nat,
    inputs: Seq<(Fp, Fp, Fp, Fp)>,
    k: int,
)
    requires
        0 <= k < inputs.len(),
        k + 1 < vwma_period,
    ensures
        run(vwema_unit(), VwemaState::init(vwma_period, ema_period), inputs).1[k] == Fp(NAN),
{
    lemma_quiet_before(
        vwema_unit(),
        |s: VwemaState| s.vwap.window == vwma_period,
        |s: VwemaState| s.vwap.flows.len(),
        |o: Fp| o == Fp(NAN),
        vwma_period,
        VwemaState::init(vwma_period, ema_period),
        inputs,
        k,
    );
}

/// Reset idempotence: a unit that has seen `before`, is reset, and then
/// sees `replay` does what a new one does on `replay`.
pub proof fn lemma_vwema_reset_replays(
    vwma_period: nat,
    ema_period: nat,
    before: Seq<(Fp, Fp, Fp, Fp)>,
    replay: Seq<(Fp, Fp, Fp, Fp)>,
)
    ensures
        ({
            let new = VwemaState::init(vwma_period, ema_period);
            let s = run(vwema_unit(), new, before).0;
            run(vwema_unit(), VwemaState::init(s.vwap.window, s.ema.window), replay)
                == run(vwema_unit(), new, replay)
        }),
{
    lemma_reset_replays(
        vwema_unit(),
        |s: VwemaState| VwemaState::init(s.vwap.window, s.ema.window),
        VwemaState::init(vwma_period, ema_period),
        before,
        replay,
    );
}

// ---------------------------------------------------------------------------
// Volume ratio
// ---------------------------------------------------------------------------

/// State of the volume ratio: the moving average of the volume and the
/// number of bars seen.
pub struct VolumeRatioState {
    pub sma: SmaState,
    pub count: nat,
}

impl VolumeRatioState {
    /// The state of a new unit.
    pub open spec fn init(window: nat) -> VolumeRatioState {
        VolumeRatioState { sma: SmaState::init(window), count: 0 }
    }

    pub open spec fn valid(self) -> bool {
        self.sma.valid()
    }

    /// The volume over its moving average; undefined while the average is
    /// undefined or zero.
    pub open spec fn step(self, volume: Fp) -> (VolumeRatioState, Fp) {
        let (sma, avg) = self.sma.step(volume);
        let out = if avg.nan() || avg.eq_spec(Fp(ZERO)) {
            Fp(NAN)
        } else {
            volume.div_spec(avg)
        };
        (VolumeRatioState { sma, count: bump(self.count) }, out)
    }
}

/// Streaming volume ratio.
pub struct VolumeRatioStreaming {
    sma: SMAStreaming,
    update_count: usize,
}

impl View for VolumeRatioStreaming {
    type V = VolumeRatioState;

    closed spec fn view(&self) -> VolumeRatioState {
        VolumeRatioState { sma: self.sma@, count: self.update_count as nat }
    }
}

impl VolumeRatioStreaming {
    /// What the unit keeps true of its own fields between calls.
    pub closed spec fn wf(&self) -> bool {
        self.sma.wf()
    }

    pub fn new(window: usize) -> (r: Self)
        requires
            window >= 1,
        ensures
            r.wf(),
            r@ == VolumeRatioState::init(window as nat),
    {
        VolumeRatioStreaming { sma: SMAStreaming::new(window), update_count: 0 }
    }

    pub fn update(&mut self, volume: Fp) -> (r: Fp)
        requires
            old(self).wf(),
        ensures
            final(self).wf(),
            final(self)@.valid(),
            (final(self)@, r) == old(self)@.step(volume),
    {
        self.update_count = bumped(self.update_count);
        let sma_value = self.sma.update(volume);
        if sma_value.is_nan() || sma_value.eq(Fp(ZERO)) {
            Fp(NAN)
        } else {
            volume.div(sma_value)
        }
    }

    /// Returns the unit to the state it was made in.
    pub fn reset(&mut self)
        requires
            old(self).wf(),
        ensures
            final(self).wf(),
            final(self)@ == VolumeRatioState::init(old(self)@.sma.window),
    {
        self.sma.reset();
        self.update_count = 0;
    }
}

/// The volume ratio as a step from state and input to state and output.
pub open spec fn volume_ratio_unit() -> spec_fn(VolumeRatioState, Fp) -> (VolumeRatioState, Fp) {
    |s: VolumeRatioState, x: Fp| s.step(x)
}

/// Warm-up: a new volume ratio gives nothing before its `window`-th sample.
pub proof fn lemma_volume_ratio_warm_up(window: nat, inputs: Seq<Fp>, k: int)
    requires
        0 <= k < inputs.len(),
        k + 1 < window,
    ensures
        run(volume_ratio_unit(), VolumeRatioState::init(window), inputs).1[k] == Fp(NAN),
{
    lemma_quiet_before(
        volume_ratio_unit(),
        |s: VolumeRatioState| s.sma.window == window,
        |s: VolumeRatioState| s.sma.buffer.len(),
        |o: Fp| o == Fp(NAN),
        window,
        VolumeRatioState::init(window),
        inputs,
        k,
    );
}

/// Reset idempotence: a unit that has seen `before`, is reset, and then
/// sees `replay` does what a new one does on `replay`.
pub proof fn lemma_volume_ratio_reset_replays(window: nat, before: Seq<Fp>, replay: Seq<Fp>)
    ensures
        ({
            let new = VolumeRatioState::init(window);
            let s = run(volume_ratio_unit(), new, before).0;
            run(volume_ratio_unit(), VolumeRatioState::init(s.sma.window), replay)
                == run(volume_ratio_unit(), new, replay)
        }),
{
    lemma_reset_replays(
        volume_ratio_unit(),
        |s: VolumeRatioState| VolumeRatioState::init(s.sma.window),
        VolumeRatioState::init(window),
        before,
        replay,
    );
}

} // verus!
