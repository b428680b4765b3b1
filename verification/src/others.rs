//! Bulk return and statistics indicators, each over a whole series.

use vstd::prelude::*;
use crate::fp::{Fp, NAN, ZERO, ONE, HUNDRED, of_nat};
use crate::series::{
    sum_range, sum_of, sq_dev_range, sq_dev_of, index_dot_of, count_le, count_le_of, undefined_vec,
};
use crate::helpers::warm;
use crate::streaming::others::{slope, slope_denom, slope_sum_x, slope_constants, compounded};
use crate::formulas::{log_return, relative_change};

verus! {

// ---------------------------------------------------------------------------
// Returns
// ---------------------------------------------------------------------------

/// The daily return of every close: its relative change from the one
/// before, in percent; undefined for the first.
pub open spec fn daily_return_series(close: Seq<Fp>) -> Seq<Fp> {
    Seq::new(
        close.len(),
        |i: int|
            if i >= 1 {
                relative_change(close[i - 1], close[i]).mul_spec(Fp(HUNDRED))
            } else {
                Fp(NAN)
            },
    )
}

pub fn daily_return(close: &[Fp]) -> (dr: Vec<Fp>)
    ensures
        dr@ == daily_return_series(close@),
{
    let len = close.len();
    let mut dr: Vec<Fp> = Vec::new();
    let mut i: usize = 0;
    while i < len
        invariant
            i <= len,
            len == close@.len(),
            dr@.len() == i,
            forall|k: int| 0 <= k < i ==> #[trigger] dr@[k] == daily_return_series(close@)[k],
        decreases len - i,
    {
        if i >= 1 {
            dr.push(close[i].sub(close[i - 1]).div(close[i - 1]).mul(Fp(HUNDRED)));
        } else {
            dr.push(Fp(NAN));
        }
        i = i + 1;
    }
    assert(dr@ =~= daily_return_series(close@));
    dr
}

/// The daily log return of every close: the logarithm of its ratio to the
/// one before, in percent; undefined for the first.
pub open spec fn daily_log_return_series(close: Seq<Fp>) -> Seq<Fp> {
    Seq::new(
        close.len(),
        |i: int|
            if i >= 1 {
                log_return(close[i - 1], close[i]).mul_spec(Fp(HUNDRED))
            } else {
                Fp(NAN)
            },
    )
}

pub fn daily_log_return(close: &[Fp]) -> (dlr: Vec<Fp>)
    ensures
        dlr@ == daily_log_return_series(close@),
{
    let len = close.len();
    let mut dlr: Vec<Fp> = Vec::new();
    let mut i: usize = 0;
    while i < len
        invariant
            i <= len,
            len == close@.len(),
            dlr@.len() == i,
            forall|k: int| 0 <= k < i ==> #[trigger] dlr@[k] == daily_log_return_series(close@)[k],
        decreases len - i,
    {
        if i >= 1 {
            let ratio = close[i].div(close[i - 1]);
            dlr.push(ratio.ln().mul(Fp(HUNDRED)));
        } else {
            dlr.push(Fp(NAN));
        }
        i = i + 1;
    }
    assert(dlr@ =~= daily_log_return_series(close@));
    dlr
}

/// The cumulative return of every close against the first, in percent;
/// undefined everywhere if the first close is zero.
pub open spec fn cumulative_return_series(close: Seq<Fp>) -> Seq<Fp> {
    Seq::new(
        close.len(),
        |i: int|
            if close[0].ne_spec(Fp(ZERO)) {
                close[i].div_spec(close[0]).sub_spec(Fp(ONE)).mul_spec(Fp(HUNDRED))
            } else {
                Fp(NAN)
            },
    )
}

pub fn cumulative_return(close: &[Fp]) -> (cr: Vec<Fp>)
    ensures
        cr@ == cumulative_return_series(close@),
{
    let len = close.len();
    let mut cr: Vec<Fp> = Vec::new();
    if len == 0 {
        assert(cr@ =~= cumulative_return_series(close@));
        return cr;
    }
    let initial_price = close[0];
    let mut i: usize = 0;
    while i < len
        invariant
            i <= len,
            1 <= len == close@.len(),
            initial_price == close@[0],
            cr@.len() == i,
            forall|k: int| 0 <= k < i ==> #[trigger] cr@[k] == cumulative_return_series(close@)[k],
        decreases len - i,
    {
        if initial_price.ne(Fp(ZERO)) {
            cr.push(close[i].div(initial_price).sub(Fp(ONE)).mul(Fp(HUNDRED)));
        } else {
            cr.push(Fp(NAN));
        }
        i = i + 1;
    }
    assert(cr@ =~= cumulative_return_series(close@));
    cr
}

/// Whether the close at `i` and the one before are both positive.
pub open spec fn both_positive(close: Seq<Fp>, i: int) -> bool {
    close[i].gt_spec(Fp(ZERO)) && close[i - 1].gt_spec(Fp(ZERO))
}

/// The log returns up to `i` between positive closes, added up.
pub open spec fn cumulative_log_return(close: Seq<Fp>, i: int) -> Fp
    decreases i,
{
    if i <= 0 {
        Fp(ZERO)
    } else if both_positive(close, i) {
        cumulative_log_return(close, i - 1).add_spec(log_return(close[i - 1], close[i]))
    } else {
        cumulative_log_return(close, i - 1)
    }
}

/// The compound log return of every close: the cumulative log return,
/// compounded, in percent; undefined for the first close and where a close
/// or the one before is not positive.
pub open spec fn compound_log_return_series(close: Seq<Fp>) -> Seq<Fp> {
    Seq::new(
        close.len(),
        |i: int|
            if i >= 1 && both_positive(close, i) {
                compounded(cumulative_log_return(close, i))
            } else {
                Fp(NAN)
            },
    )
}

pub fn compound_log_return(close: &[Fp]) -> (clr: Vec<Fp>)
    ensures
        clr@ == compound_log_return_series(close@),
{
    let len = close.len();
    let mut clr: Vec<Fp> = Vec::new();
    let mut cumulative = Fp(ZERO);
    let mut i: usize = 0;
    while i < len
        invariant
            i <= len,
            len == close@.len(),
            cumulative == cumulative_log_return(close@, i - 1),
            clr@.len() == i,
            forall|k: int|
                0 <= k < i ==> #[trigger] clr@[k] == compound_log_return_series(close@)[k],
        decreases len - i,
    {
        if i >= 1 && close[i].gt(Fp(ZERO)) && close[i - 1].gt(Fp(ZERO)) {
            let log_ret = close[i].div(close[i - 1]).ln();
            cumulative = cumulative.add(log_ret);
            clr.push(cumulative.exp().sub(Fp(ONE)).mul(Fp(HUNDRED)));
        } else {
            clr.push(Fp(NAN));
        }
        i = i + 1;
    }
    assert(clr@ =~= compound_log_return_series(close@));
    clr
}

// ---------------------------------------------------------------------------
// Rolling statistics
// ---------------------------------------------------------------------------

/// The z-score at `i`: the distance of the sample from the window's mean
/// in population standard deviations; zero where the deviation is zero.
pub open spec fn zscore_at(data: Seq<Fp>, window: nat, i: int) -> Fp {
    if warm(window, data.len(), i) {
        let lo = i + 1 - window;
        let mean = sum_range(data, lo, i + 1).div_spec(of_nat(window));
        let std = sq_dev_range(data, lo, i + 1, mean).div_spec(of_nat(window)).sqrt_spec();
        if std.ne_spec(Fp(ZERO)) {
            data[i].sub_spec(mean).div_spec(std)
        } else {
            Fp(ZERO)
        }
    } else {
        Fp(NAN)
    }
}

pub open spec fn zscore_series(data: Seq<Fp>, window: nat) -> Seq<Fp> {
    Seq::new(data.len(), |i: int| zscore_at(data, window, i))
}

pub fn rolling_zscore(data: &[Fp], window: usize) -> (result: Vec<Fp>)
    ensures
        result@ == zscore_series(data@, window as nat),
{
    let len = data.len();
    if window == 0 || window > len {
        let early = undefined_vec(len);
        assert(early@ =~= zscore_series(data@, window as nat));
        return early;
    }
    let w = Fp::from_usize(window);
    let mut result = undefined_vec(window - 1);
    let mut i: usize = window - 1;
    while i < len
        invariant
            1 <= window <= len,
            window - 1 <= i <= len,
            len == data@.len(),
            w == of_nat(window as nat),
            result@.len() == i,
            forall|k: int|
                0 <= k < i ==> #[trigger] result@[k] == zscore_at(data@, window as nat, k),
        decreases len - i,
    {
        let start = i + 1 - window;
        let mean = sum_of(data, start, i + 1).div(w);
        let variance = sq_dev_of(data, start, i + 1, mean).div(w);
        let std = variance.sqrt();
        if std.ne(Fp(ZERO)) {
            result.push(data[i].sub(mean).div(std));
        } else {
            result.push(Fp(ZERO));
        }
        i = i + 1;
    }
    assert(result@ =~= zscore_series(data@, window as nat));
    result
}

/// The least-squares slope at `i` of the window against its positions;
/// undefined where the denominator is zero, as it is for a window of one.
pub open spec fn slope_at(data: Seq<Fp>, window: nat, i: int) -> Fp {
    if warm(window, data.len(), i) && !slope_denom(window).eq_spec(Fp(ZERO)) {
        slope(data, i + 1 - window, window)
    } else {
        Fp(NAN)
    }
}

pub open spec fn slope_series(data: Seq<Fp>, window: nat) -> Seq<Fp> {
    Seq::new(data.len(), |i: int| slope_at(data, window, i))
}

pub fn linear_regression_slope(data: &[Fp], window: usize) -> (result: Vec<Fp>)
    ensures
        result@ == slope_series(data@, window as nat),
{
    let len = data.len();
    if window == 0 || window > len {
        let early = undefined_vec(len);
        assert(early@ =~= slope_series(data@, window as nat));
        return early;
    }
    let w = Fp::from_usize(window);
    let (sum_x, denom) = slope_constants(window);
    if denom.eq(Fp(ZERO)) {
        let early = undefined_vec(len);
        assert(early@ =~= slope_series(data@, window as nat));
        return early;
    }
    let mut result = undefined_vec(window - 1);
    let mut i: usize = window - 1;
    while i < len
        invariant
            1 <= window <= len,
            window - 1 <= i <= len,
            len == data@.len(),
            w == of_nat(window as nat),
            sum_x == slope_sum_x(window as nat),
            denom == slope_denom(window as nat),
            !denom.eq_spec(Fp(ZERO)),
            result@.len() == i,
            forall|k: int|
                0 <= k < i ==> #[trigger] result@[k] == slope_at(data@, window as nat, k),
        decreases len - i,
    {
        let start = i + 1 - window;
        let sum_y = sum_of(data, start, i + 1);
        let sum_xy = index_dot_of(data, start, i + 1);
        result.push(w.mul(sum_xy).sub(sum_x.mul(sum_y)).div(denom));
        i = i + 1;
    }
    assert(result@ =~= slope_series(data@, window as nat));
    result
}

/// The rolling percentile at `i`: the share of the window's samples that
/// do not exceed the sample at `i`.
pub open spec fn percentile_at(data: Seq<Fp>, window: nat, i: int) -> Fp {
    if warm(window, data.len(), i) {
        of_nat(count_le(data, i + 1 - window, i + 1, data[i])).div_spec(of_nat(window))
    } else {
        Fp(NAN)
    }
}

pub open spec fn percentile_series(data: Seq<Fp>, window: nat) -> Seq<Fp> {
    Seq::new(data.len(), |i: int| percentile_at(data, window, i))
}

pub fn rolling_percentile(data: &[Fp], window: usize) -> (result: Vec<Fp>)
    ensures
        result@ == percentile_series(data@, window as nat),
{
    let len = data.len();
    if window == 0 || window > len {
        let early = undefined_vec(len);
        assert(early@ =~= percentile_series(data@, window as nat));
        return early;
    }
    let w = Fp::from_usize(window);
    let mut result = undefined_vec(window - 1);
    let mut i: usize = window - 1;
    while i < len
        invariant
            1 <= window <= len,
            window - 1 <= i <= len,
            len == data@.len(),
            w == of_nat(window as nat),
            result@.len() == i,
            forall|k: int|
                0 <= k < i ==> #[trigger] result@[k] == percentile_at(data@, window as nat, k),
        decreases len - i,
    {
        let count = count_le_of(data, i + 1 - window, i + 1, data[i]);
        result.push(Fp::from_usize(count).div(w));
        i = i + 1;
    }
    assert(result@ =~= percentile_series(data@, window as nat));
    result
}

} // verus!
