//! Formulas of a single bar or a single step: smoothing constants and
//! smoothing steps, the true range, directional movement, and the ratios
//! that several indicators share in their bulk and in their streaming form.

use vstd::prelude::*;
use crate::fp::{
    Fp, NAN, ZERO, ONE, TWO, THREE, FIFTY, HUNDRED, NEG_HUNDRED, HUNDRED_MILLION, of_nat,
};

verus! {

/// The smoothing constant of an exponential average over `window` samples:
/// two over `window` plus one.
pub open spec fn ema_alpha(window: nat) -> Fp {
    Fp(TWO).div_spec(of_nat(window).add_spec(Fp(ONE)))
}

/// The smoothing constant of Wilder's average over `window` samples: one
/// over `window`.
pub open spec fn wilder_alpha(window: nat) -> Fp {
    Fp(ONE).div_spec(of_nat(window))
}

/// Whether a smoothing constant and its complement to one are numbers, as
/// they are for the constant of every window.
pub open spec fn usable_constant(alpha: Fp) -> bool {
    alpha.finite() && Fp(ONE).sub_spec(alpha).finite()
}

/// Computes the constant of Wilder's average over `window` samples and its
/// complement to one, and tests whether both are numbers.
pub fn wilder_constant_is_usable(window: usize) -> (ok: bool)
    ensures
        ok == usable_constant(wilder_alpha(window as nat)),
{
    let alpha = Fp(ONE).div(Fp::from_usize(window));
    alpha.is_finite() && Fp(ONE).sub(alpha).is_finite()
}

/// One step of exponential smoothing: `alpha * x + (1 - alpha) * prev`.
pub open spec fn smooth(alpha: Fp, x: Fp, prev: Fp) -> Fp {
    alpha.mul_spec(x).add_spec(Fp(ONE).sub_spec(alpha).mul_spec(prev))
}

pub fn smoothed(alpha: Fp, x: Fp, prev: Fp) -> (r: Fp)
    ensures
        r == smooth(alpha, x, prev),
{
    alpha.mul(x).add(Fp(ONE).sub(alpha).mul(prev))
}

/// One step of Wilder's smoothing: `(1 - alpha) * prev + alpha * x`.
pub open spec fn wilder_smooth(alpha: Fp, x: Fp, prev: Fp) -> Fp {
    Fp(ONE).sub_spec(alpha).mul_spec(prev).add_spec(alpha.mul_spec(x))
}

pub fn wilder_smoothed(alpha: Fp, x: Fp, prev: Fp) -> (r: Fp)
    ensures
        r == wilder_smooth(alpha, x, prev),
{
    Fp(ONE).sub(alpha).mul(prev).add(alpha.mul(x))
}

/// The true range of a bar that follows a close: the largest of the bar's
/// height and the two distances from the previous close to its ends.
pub open spec fn true_range_after(high: Fp, low: Fp, prev_close: Fp) -> Fp {
    high.sub_spec(low).max_spec(high.sub_spec(prev_close).abs_spec()).max_spec(
        low.sub_spec(prev_close).abs_spec(),
    )
}

pub fn true_range_step(high: Fp, low: Fp, prev_close: Fp) -> (r: Fp)
    ensures
        r == true_range_after(high, low, prev_close),
{
    high.sub(low).max(high.sub(prev_close).abs()).max(low.sub(prev_close).abs())
}

/// The mean of three prices.
pub open spec fn typical(high: Fp, low: Fp, close: Fp) -> Fp {
    high.add_spec(low).add_spec(close).div_spec(Fp(THREE))
}

pub fn typical_price(high: Fp, low: Fp, close: Fp) -> (r: Fp)
    ensures
        r == typical(high, low, close),
{
    high.add(low).add(close).div(Fp(THREE))
}

/// Upward directional movement: the rise of the high, where it is positive
/// and exceeds the fall of the low; else zero.
pub open spec fn plus_dm(high_diff: Fp, low_diff: Fp) -> Fp {
    if high_diff.gt_spec(low_diff) && high_diff.gt_spec(Fp(ZERO)) {
        high_diff
    } else {
        Fp(ZERO)
    }
}

/// Downward directional movement: the fall of the low, where it is positive
/// and exceeds the rise of the high; else zero.
pub open spec fn minus_dm(high_diff: Fp, low_diff: Fp) -> Fp {
    if low_diff.gt_spec(high_diff) && low_diff.gt_spec(Fp(ZERO)) {
        low_diff
    } else {
        Fp(ZERO)
    }
}

/// A directional indicator: a hundred times the smoothed movement over the
/// smoothed true range.
pub open spec fn directional_index(dm: Fp, tr: Fp) -> Fp {
    Fp(HUNDRED).mul_spec(dm.div_spec(tr))
}

/// The directional movement index: a hundred times the distance of the two
/// indicators over their sum.
pub open spec fn dx_of(plus_di: Fp, minus_di: Fp) -> Fp {
    Fp(HUNDRED).mul_spec(plus_di.sub_spec(minus_di).abs_spec()).div_spec(
        plus_di.add_spec(minus_di),
    )
}

/// The gain of a change: the change where it is positive, else zero.
pub open spec fn gain_of(change: Fp) -> Fp {
    if change.gt_spec(Fp(ZERO)) {
        change
    } else {
        Fp(ZERO)
    }
}

/// The loss of a change: zero where the change is positive, else its
/// negation.
pub open spec fn loss_of(change: Fp) -> Fp {
    if change.gt_spec(Fp(ZERO)) {
        Fp(ZERO)
    } else {
        change.neg_spec()
    }
}

/// The index that turns a ratio of averages into a value between zero and a
/// hundred: `100 - 100 / (1 + gain / loss)`, and a hundred where the loss is
/// zero.
pub open spec fn strength_index(gain: Fp, loss: Fp) -> Fp {
    if loss.eq_spec(Fp(ZERO)) {
        Fp(HUNDRED)
    } else {
        Fp(HUNDRED).sub_spec(Fp(HUNDRED).div_spec(Fp(ONE).add_spec(gain.div_spec(loss))))
    }
}

pub fn strength_index_of(gain: Fp, loss: Fp) -> (r: Fp)
    ensures
        r == strength_index(gain, loss),
{
    if loss.eq(Fp(ZERO)) {
        Fp(HUNDRED)
    } else {
        Fp(HUNDRED).sub(Fp(HUNDRED).div(Fp(ONE).add(gain.div(loss))))
    }
}

/// The place of the close in the range of the window, in percent; fifty
/// where the range is empty.
pub open spec fn percent_k(close: Fp, lowest: Fp, highest: Fp) -> Fp {
    if highest.ne_spec(lowest) {
        Fp(HUNDRED).mul_spec(close.sub_spec(lowest)).div_spec(highest.sub_spec(lowest))
    } else {
        Fp(FIFTY)
    }
}

/// The distance of the close below the window's high, as a negative
/// percentage of the range; minus a hundred where the range is empty.
pub open spec fn percent_r(close: Fp, lowest: Fp, highest: Fp) -> Fp {
    if highest.ne_spec(lowest) {
        Fp(NEG_HUNDRED).mul_spec(highest.sub_spec(close)).div_spec(highest.sub_spec(lowest))
    } else {
        Fp(NEG_HUNDRED)
    }
}

/// The place of `value` between `lowest` and `highest`, as a share of one;
/// zero where the range is empty.
pub open spec fn share_of_range(value: Fp, lowest: Fp, highest: Fp) -> Fp {
    if highest.gt_spec(lowest) {
        value.sub_spec(lowest).div_spec(highest.sub_spec(lowest))
    } else {
        Fp(ZERO)
    }
}

/// The change from `from` to `to` as a percentage of `from`; `fallback`
/// where `from` is zero.
pub open spec fn percent_change(from: Fp, to: Fp, fallback: Fp) -> Fp {
    if from.ne_spec(Fp(ZERO)) {
        to.sub_spec(from).div_spec(from).mul_spec(Fp(HUNDRED))
    } else {
        fallback
    }
}

pub fn percent_change_of(from: Fp, to: Fp, fallback: Fp) -> (r: Fp)
    ensures
        r == percent_change(from, to, fallback),
{
    if from.ne(Fp(ZERO)) {
        to.sub(from).div(from).mul(Fp(HUNDRED))
    } else {
        fallback
    }
}

/// The relative change from `prev` to `value`.
pub open spec fn relative_change(prev: Fp, value: Fp) -> Fp {
    value.sub_spec(prev).div_spec(prev)
}

/// The logarithm of the ratio of two prices.
pub open spec fn log_return(prev: Fp, value: Fp) -> Fp {
    value.div_spec(prev).ln_spec()
}

/// The adaptive smoothing constant: the square of the ratio's place between
/// the slow and the fast constant.
pub open spec fn adaptive_constant(er: Fp, fast_sc: Fp, slow_sc: Fp) -> Fp {
    er.mul_spec(fast_sc.sub_spec(slow_sc)).add_spec(slow_sc).sq_spec()
}

/// The money flow multiplier of a bar: where the close lies between the low
/// and the high, from minus one to one; zero for a bar without height.
pub open spec fn money_flow_multiplier(high: Fp, low: Fp, close: Fp) -> Fp {
    if high.ne_spec(low) {
        close.sub_spec(low).sub_spec(high.sub_spec(close)).div_spec(high.sub_spec(low))
    } else {
        Fp(ZERO)
    }
}

pub fn money_flow_multiplier_of(high: Fp, low: Fp, close: Fp) -> (r: Fp)
    ensures
        r == money_flow_multiplier(high, low, close),
{
    if high.ne(low) {
        close.sub(low).sub(high.sub(close)).div(high.sub(low))
    } else {
        Fp(ZERO)
    }
}

/// A sum over a volume sum; zero where the volume sum is zero.
pub open spec fn volume_weighted(total: Fp, volume: Fp) -> Fp {
    if volume.ne_spec(Fp(ZERO)) {
        total.div_spec(volume)
    } else {
        Fp(ZERO)
    }
}

/// The ease of movement of a bar after another: the mean move of its ends,
/// times its height, over its volume, scaled by a hundred million;
/// undefined for a bar without volume.
pub open spec fn ease_of_movement(
    prev_high: Fp,
    prev_low: Fp,
    high: Fp,
    low: Fp,
    volume: Fp,
) -> Fp {
    if volume.ne_spec(Fp(ZERO)) {
        high.sub_spec(prev_high).add_spec(low.sub_spec(prev_low)).div_spec(Fp(TWO)).mul_spec(
            high.sub_spec(low),
        ).div_spec(volume).mul_spec(Fp(HUNDRED_MILLION))
    } else {
        Fp(NAN)
    }
}

pub fn ease_of_movement_of(prev_high: Fp, prev_low: Fp, high: Fp, low: Fp, volume: Fp) -> (r: Fp)
    ensures
        r == ease_of_movement(prev_high, prev_low, high, low, volume),
{
    if volume.ne(Fp(ZERO)) {
        let distance_moved = high.sub(prev_high).add(low.sub(prev_low)).div(Fp(TWO));
        let box_height = high.sub(low);
        distance_moved.mul(box_height).div(volume).mul(Fp(HUNDRED_MILLION))
    } else {
        Fp(NAN)
    }
}

} // verus!
