//! Running a streaming unit over a whole series, and what holds of every
//! such run.

use vstd::prelude::*;
use crate::fp::Fp;
use crate::series::bump;
use crate::window::{SamplesState, slide, tail, lemma_fed_is_tail};

verus! {

/// The state and the outputs after a unit in state `start` has been fed
/// `inputs` in order, one step each.
pub open spec fn run<S, I, O>(step: spec_fn(S, I) -> (S, O), start: S, inputs: Seq<I>) -> (
    S,
    Seq<O>,
)
    decreases inputs.len(),
{
    if inputs.len() == 0 {
        (start, Seq::empty())
    } else {
        let (mid, outs) = run(step, start, inputs.drop_last());
        let (end, out) = step(mid, inputs.last());
        (end, outs.push(out))
    }
}

/// A run gives one output for each input.
pub proof fn lemma_run_len<S, I, O>(step: spec_fn(S, I) -> (S, O), start: S, inputs: Seq<I>)
    ensures
        run(step, start, inputs).1.len() == inputs.len(),
    decreases inputs.len(),
{
    if inputs.len() > 0 {
        lemma_run_len(step, start, inputs.drop_last());
    }
}

/// The output at `k` is the output of the step that takes the input at `k`
/// from the state after the inputs before it.
pub proof fn lemma_run_at<S, I, O>(
    step: spec_fn(S, I) -> (S, O),
    start: S,
    inputs: Seq<I>,
    k: int,
)
    requires
        0 <= k < inputs.len(),
    ensures
        run(step, start, inputs).1.len() == inputs.len(),
        run(step, start, inputs).1[k] == step(run(step, start, inputs.take(k)).0, inputs[k]).1,
    decreases inputs.len(),
{
    lemma_run_len(step, start, inputs);
    let before = inputs.drop_last();
    lemma_run_len(step, start, before);
    if k == inputs.len() - 1 {
        assert(inputs.take(k) =~= before);
    } else {
        lemma_run_at(step, start, before, k);
        assert(before.take(k) =~= inputs.take(k));
    }
}

/// An invariant that the start satisfies and every step keeps holds after
/// any run.
pub proof fn lemma_run_keeps<S, I, O>(
    step: spec_fn(S, I) -> (S, O),
    inv: spec_fn(S) -> bool,
    start: S,
    inputs: Seq<I>,
)
    requires
        inv(start),
        forall|s: S, x: I| inv(s) ==> inv(#[trigger] step(s, x).0),
    ensures
        inv(run(step, start, inputs).0),
    decreases inputs.len(),
{
    if inputs.len() > 0 {
        lemma_run_keeps(step, inv, start, inputs.drop_last());
    }
}

/// An invariant that the start satisfies, and that every step on an input
/// of a given kind keeps, holds after any run on inputs of that kind.
pub proof fn lemma_run_keeps_on<S, I, O>(
    step: spec_fn(S, I) -> (S, O),
    inv: spec_fn(S) -> bool,
    kind: spec_fn(I) -> bool,
    start: S,
    inputs: Seq<I>,
)
    requires
        inv(start),
        forall|s: S, x: I| inv(s) && kind(x) ==> inv(#[trigger] step(s, x).0),
        forall|k: int| 0 <= k < inputs.len() ==> kind(#[trigger] inputs[k]),
    ensures
        inv(run(step, start, inputs).0),
    decreases inputs.len(),
{
    if inputs.len() > 0 {
        let before = inputs.drop_last();
        assert forall|k: int| 0 <= k < before.len() implies kind(#[trigger] before[k]) by {
            assert(before[k] == inputs[k]);
        }
        lemma_run_keeps_on(step, inv, kind, start, before);
        assert(kind(inputs[inputs.len() - 1]));
    }
}

/// A counter that starts at zero and is bumped by every step counts the
/// inputs of a run, up to the largest `usize`.
pub proof fn lemma_count_after<S, I, O>(
    step: spec_fn(S, I) -> (S, O),
    count: spec_fn(S) -> nat,
    start: S,
    inputs: Seq<I>,
)
    requires
        count(start) == 0,
        forall|s: S, x: I| count(#[trigger] step(s, x).0) == bump(count(s)),
    ensures
        count(run(step, start, inputs).0) == if inputs.len() < usize::MAX {
            inputs.len()
        } else {
            usize::MAX as nat
        },
    decreases inputs.len(),
{
    if inputs.len() > 0 {
        lemma_count_after(step, count, start, inputs.drop_last());
    }
}

/// A unit that slides every sample into a window of `cap` samples, and
/// starts with that window empty, holds after a run the last `cap` samples
/// of its inputs.
pub proof fn lemma_window_after<S, O>(
    step: spec_fn(S, Fp) -> (S, O),
    inv: spec_fn(S) -> bool,
    buffer: spec_fn(S) -> Seq<Fp>,
    cap: nat,
    start: S,
    inputs: Seq<Fp>,
)
    requires
        inv(start),
        buffer(start) == Seq::<Fp>::empty(),
        forall|s: S, x: Fp| inv(s) ==> inv(#[trigger] step(s, x).0),
        forall|s: S, x: Fp| inv(s) ==> buffer(#[trigger] step(s, x).0) == slide(buffer(s), x, cap),
    ensures
        inv(run(step, start, inputs).0),
        buffer(run(step, start, inputs).0) == tail(inputs, cap),
    decreases inputs.len(),
{
    lemma_fed_is_tail(inputs, cap);
    if inputs.len() > 0 {
        let before = inputs.drop_last();
        lemma_window_after(step, inv, buffer, cap, start, before);
        lemma_fed_is_tail(before, cap);
    }
}

/// A unit that slides one part of every input into a window of `cap`
/// samples, and starts with that window empty, holds after a run the last
/// `cap` of those parts.
pub proof fn lemma_picked_window_after<S, I, O>(
    step: spec_fn(S, I) -> (S, O),
    inv: spec_fn(S) -> bool,
    buffer: spec_fn(S) -> Seq<Fp>,
    pick: spec_fn(I) -> Fp,
    cap: nat,
    start: S,
    inputs: Seq<I>,
)
    requires
        inv(start),
        buffer(start) == Seq::<Fp>::empty(),
        forall|s: S, x: I| inv(s) ==> inv(#[trigger] step(s, x).0),
        forall|s: S, x: I|
            inv(s) ==> buffer(#[trigger] step(s, x).0) == slide(buffer(s), pick(x), cap),
    ensures
        inv(run(step, start, inputs).0),
        buffer(run(step, start, inputs).0) == tail(inputs.map_values(pick), cap),
    decreases inputs.len(),
{
    let picked = inputs.map_values(pick);
    lemma_fed_is_tail(picked, cap);
    if inputs.len() > 0 {
        let before = inputs.drop_last();
        lemma_picked_window_after(step, inv, buffer, pick, cap, start, before);
        assert(before.map_values(pick) =~= picked.drop_last());
        lemma_fed_is_tail(picked.drop_last(), cap);
    }
}

/// Bounded memory. A unit whose state is its window of samples answers
/// from the last `window` samples alone: its output at `k` is the output of
/// one step from the window that holds the `window` samples before `k`.
pub proof fn lemma_reads_window<O>(
    step: spec_fn(SamplesState, Fp) -> (SamplesState, O),
    window: nat,
    inputs: Seq<Fp>,
    k: int,
)
    requires
        forall|s: SamplesState, x: Fp| #[trigger] step(s, x).0 == s.pushed(x),
        0 <= k < inputs.len(),
    ensures
        run(step, SamplesState::init(window), inputs).1[k] == step(
            SamplesState { window, buffer: tail(inputs.take(k), window) },
            inputs[k],
        ).1,
{
    lemma_run_at(step, SamplesState::init(window), inputs, k);
    lemma_window_after(
        step,
        |s: SamplesState| s.window == window,
        |s: SamplesState| s.buffer,
        window,
        SamplesState::init(window),
        inputs.take(k),
    );
}

/// Warm-up. Let `held` count what a unit has gathered, starting from
/// nothing and growing by at most one with each step, and let every step
/// whose state has gathered less than `need` give a `quiet` output. Then
/// every output before the `need`-th is quiet.
pub proof fn lemma_quiet_before<S, I, O>(
    step: spec_fn(S, I) -> (S, O),
    inv: spec_fn(S) -> bool,
    held: spec_fn(S) -> nat,
    quiet: spec_fn(O) -> bool,
    need: nat,
    start: S,
    inputs: Seq<I>,
    k: int,
)
    requires
        inv(start),
        held(start) == 0,
        forall|s: S, x: I| inv(s) ==> inv(#[trigger] step(s, x).0),
        forall|s: S, x: I| inv(s) ==> held(#[trigger] step(s, x).0) <= held(s) + 1,
        forall|s: S, x: I|
            inv(s) && held(#[trigger] step(s, x).0) < need ==> quiet(step(s, x).1),
        0 <= k < inputs.len(),
        k + 1 < need,
    ensures
        quiet(run(step, start, inputs).1[k]),
{
    lemma_run_at(step, start, inputs, k);
    let before = inputs.take(k);
    lemma_held_bounded(step, inv, held, start, before);
    let mid = run(step, start, before).0;
    let next = step(mid, inputs[k]);
    assert(held(next.0) <= held(mid) + 1);
    assert(quiet(next.1));
}

/// What a unit has gathered after a run is at most the number of inputs.
pub proof fn lemma_held_bounded<S, I, O>(
    step: spec_fn(S, I) -> (S, O),
    inv: spec_fn(S) -> bool,
    held: spec_fn(S) -> nat,
    start: S,
    inputs: Seq<I>,
)
    requires
        inv(start),
        held(start) == 0,
        forall|s: S, x: I| inv(s) ==> inv(#[trigger] step(s, x).0),
        forall|s: S, x: I| inv(s) ==> held(#[trigger] step(s, x).0) <= held(s) + 1,
    ensures
        inv(run(step, start, inputs).0),
        held(run(step, start, inputs).0) <= inputs.len(),
    decreases inputs.len(),
{
    if inputs.len() > 0 {
        lemma_held_bounded(step, inv, held, start, inputs.drop_last());
    }
}

/// Reset idempotence. Let `fresh` give the state that a reset restores, let
/// no step change what a reset restores, and let the unit start out fresh.
/// Then a unit that has been fed `before`, reset, and fed `replay` ends in
/// the state, and has given the outputs, of a new unit fed `replay`.
pub proof fn lemma_reset_replays<S, I, O>(
    step: spec_fn(S, I) -> (S, O),
    fresh: spec_fn(S) -> S,
    start: S,
    before: Seq<I>,
    replay: Seq<I>,
)
    requires
        fresh(start) == start,
        forall|s: S, x: I| fresh(#[trigger] step(s, x).0) == fresh(s),
    ensures
        run(step, fresh(run(step, start, before).0), replay) == run(step, start, replay),
{
    lemma_run_keeps(step, |s: S| fresh(s) == start, start, before);
}

} // verus!
