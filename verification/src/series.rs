//! Folds over runs of samples, shared by the bulk kernels, which read
//! slices, and the streaming units, which read their rolling windows.

use vstd::prelude::*;
use crate::fp::{Fp, ZERO, INF, NEG_INF, NAN, EXACT_LIMIT, of_nat, lemma_exact_positive};

verus! {

/// A finite run of samples that can be read by position.
pub trait Series {
    /// The samples, oldest first.
    spec fn seq(&self) -> Seq<Fp>;

    fn length(&self) -> (n: usize)
        ensures
            n == self.seq().len(),
    ;

    fn at(&self, i: usize) -> (x: Fp)
        requires
            i < self.seq().len(),
        ensures
            x == self.seq()[i as int],
    ;
}

impl Series for [Fp] {
    open spec fn seq(&self) -> Seq<Fp> {
        self@
    }

    fn length(&self) -> (n: usize) {
        self.len()
    }

    fn at(&self, i: usize) -> (x: Fp) {
        self[i]
    }
}

/// The samples at positions `lo..hi` added up from zero, left to right.
pub open spec fn sum_range(s: Seq<Fp>, lo: int, hi: int) -> Fp
    decreases hi - lo,
{
    if hi <= lo {
        Fp(ZERO)
    } else {
        sum_range(s, lo, hi - 1).add_spec(s[hi - 1])
    }
}

/// All the samples added up from zero, left to right.
pub open spec fn sum(s: Seq<Fp>) -> Fp {
    sum_range(s, 0, s.len() as int)
}

/// The largest sample at positions `lo..hi`, folded from negative infinity;
/// NaN samples are passed over.
pub open spec fn max_range(s: Seq<Fp>, lo: int, hi: int) -> Fp
    decreases hi - lo,
{
    if hi <= lo {
        Fp(NEG_INF)
    } else {
        max_range(s, lo, hi - 1).max_spec(s[hi - 1])
    }
}

/// The smallest sample at positions `lo..hi`, folded from positive infinity;
/// NaN samples are passed over.
pub open spec fn min_range(s: Seq<Fp>, lo: int, hi: int) -> Fp
    decreases hi - lo,
{
    if hi <= lo {
        Fp(INF)
    } else {
        min_range(s, lo, hi - 1).min_spec(s[hi - 1])
    }
}

/// The squared distances of the samples at `lo..hi` from `center`, added up.
pub open spec fn sq_dev_range(s: Seq<Fp>, lo: int, hi: int, center: Fp) -> Fp
    decreases hi - lo,
{
    if hi <= lo {
        Fp(ZERO)
    } else {
        sq_dev_range(s, lo, hi - 1, center).add_spec(s[hi - 1].sub_spec(center).sq_spec())
    }
}

/// The absolute distances of the samples at `lo..hi` from `center`, added up.
pub open spec fn abs_dev_range(s: Seq<Fp>, lo: int, hi: int, center: Fp) -> Fp
    decreases hi - lo,
{
    if hi <= lo {
        Fp(ZERO)
    } else {
        abs_dev_range(s, lo, hi - 1, center).add_spec(s[hi - 1].sub_spec(center).abs_spec())
    }
}

/// The samples at `lo..hi`, each multiplied by its place in the run counted
/// from one, added up: the newest sample weighs most.
pub open spec fn ramp_dot(s: Seq<Fp>, lo: int, hi: int) -> Fp
    decreases hi - lo,
{
    if hi <= lo {
        Fp(ZERO)
    } else {
        ramp_dot(s, lo, hi - 1).add_spec(s[hi - 1].mul_spec(of_nat((hi - lo) as nat)))
    }
}

/// The weights one to `n`, added up.
pub open spec fn ramp_total(n: nat) -> Fp
    decreases n,
{
    if n == 0 {
        Fp(ZERO)
    } else {
        ramp_total((n - 1) as nat).add_spec(of_nat(n))
    }
}

/// The count after one more update; it stops at the largest `usize`.
pub open spec fn bump(n: nat) -> nat {
    if n < usize::MAX {
        n + 1
    } else {
        n
    }
}

/// The last position below `n` whose sample equals `x` as doubles compare,
/// if there is one.
pub open spec fn last_eq(s: Seq<Fp>, x: Fp, n: int) -> Option<int>
    decreases n,
{
    if n <= 0 {
        None
    } else if s[n - 1].eq_spec(x) {
        Some(n - 1)
    } else {
        last_eq(s, x, n - 1)
    }
}

/// The absolute changes between neighbours among the first `n` samples,
/// added up.
pub open spec fn path_length(s: Seq<Fp>, n: int) -> Fp
    decreases n,
{
    if n <= 1 {
        Fp(ZERO)
    } else {
        path_length(s, n - 1).add_spec(s[n - 1].sub_spec(s[n - 2]).abs_spec())
    }
}

/// The samples at `lo..hi`, each multiplied by its distance from `lo`,
/// added up.
pub open spec fn index_dot(s: Seq<Fp>, lo: int, hi: int) -> Fp
    decreases hi - lo,
{
    if hi <= lo {
        Fp(ZERO)
    } else {
        index_dot(s, lo, hi - 1).add_spec(of_nat((hi - 1 - lo) as nat).mul_spec(s[hi - 1]))
    }
}

/// The number of samples at `lo..hi` that are less than or equal to `x`.
pub open spec fn count_le(s: Seq<Fp>, lo: int, hi: int, x: Fp) -> nat
    decreases hi - lo,
{
    if hi <= lo {
        0
    } else if s[hi - 1].le_spec(x) {
        count_le(s, lo, hi - 1, x) + 1
    } else {
        count_le(s, lo, hi - 1, x)
    }
}

/// The highest of the first `n` samples, a running maximum that starts from
/// the first sample.
pub open spec fn peak(s: Seq<Fp>, n: int) -> Fp
    decreases n,
{
    if n <= 1 {
        s[0]
    } else {
        peak(s, n - 1).max_spec(s[n - 1])
    }
}

/// The deepest relative drawdown among the first `n` samples: the lowest
/// value, at most zero, of a sample's distance below the running maximum as
/// a share of that maximum.
pub open spec fn deepest_drawdown(s: Seq<Fp>, n: int) -> Fp
    decreases n,
{
    if n <= 1 {
        Fp(ZERO)
    } else {
        deepest_drawdown(s, n - 1).min_spec(s[n - 1].sub_spec(peak(s, n)).div_spec(peak(s, n)))
    }
}

/// The last position in `lo..hi` whose sample equals `x` as doubles
/// compare, if there is one.
pub open spec fn last_eq_in(s: Seq<Fp>, x: Fp, lo: int, hi: int) -> Option<int>
    decreases hi - lo,
{
    if hi <= lo {
        None
    } else if s[hi - 1].eq_spec(x) {
        Some(hi - 1)
    } else {
        last_eq_in(s, x, lo, hi - 1)
    }
}

/// The samples at `lo..hi` that are not NaN, added up from zero.
pub open spec fn defined_sum_range(s: Seq<Fp>, lo: int, hi: int) -> Fp
    decreases hi - lo,
{
    if hi <= lo {
        Fp(ZERO)
    } else if s[hi - 1].nan() {
        defined_sum_range(s, lo, hi - 1)
    } else {
        defined_sum_range(s, lo, hi - 1).add_spec(s[hi - 1])
    }
}

/// The products of the samples of two series at `lo..hi`, added up.
pub open spec fn dot_range(a: Seq<Fp>, b: Seq<Fp>, lo: int, hi: int) -> Fp
    decreases hi - lo,
{
    if hi <= lo {
        Fp(ZERO)
    } else {
        dot_range(a, b, lo, hi - 1).add_spec(a[hi - 1].mul_spec(b[hi - 1]))
    }
}

/// Whether any sample at positions `lo..hi` is a NaN.
pub open spec fn any_nan(s: Seq<Fp>, lo: int, hi: int) -> bool {
    exists|k: int| lo <= k < hi && (#[trigger] s[k]).nan()
}

/// A run of `n` undefined values.
pub open spec fn undefined(n: nat) -> Seq<Fp> {
    Seq::new(n, |i: int| Fp(NAN))
}

pub fn sum_of<S: Series + ?Sized>(s: &S, lo: usize, hi: usize) -> (r: Fp)
    requires
        lo <= hi <= s.seq().len(),
    ensures
        r == sum_range(s.seq(), lo as int, hi as int),
{
    let mut acc = Fp(ZERO);
    let mut i: usize = lo;
    while i < hi
        invariant
            lo <= i <= hi <= s.seq().len(),
            acc == sum_range(s.seq(), lo as int, i as int),
        decreases hi - i,
    {
        acc = acc.add(s.at(i));
        i = i + 1;
    }
    acc
}

pub fn max_of<S: Series + ?Sized>(s: &S, lo: usize, hi: usize) -> (r: Fp)
    requires
        lo <= hi <= s.seq().len(),
    ensures
        r == max_range(s.seq(), lo as int, hi as int),
{
    let mut acc = Fp(NEG_INF);
    let mut i: usize = lo;
    while i < hi
        invariant
            lo <= i <= hi <= s.seq().len(),
            acc == max_range(s.seq(), lo as int, i as int),
        decreases hi - i,
    {
        acc = acc.max(s.at(i));
        i = i + 1;
    }
    acc
}

pub fn min_of<S: Series + ?Sized>(s: &S, lo: usize, hi: usize) -> (r: Fp)
    requires
        lo <= hi <= s.seq().len(),
    ensures
        r == min_range(s.seq(), lo as int, hi as int),
{
    let mut acc = Fp(INF);
    let mut i: usize = lo;
    while i < hi
        invariant
            lo <= i <= hi <= s.seq().len(),
            acc == min_range(s.seq(), lo as int, i as int),
        decreases hi - i,
    {
        acc = acc.min(s.at(i));
        i = i + 1;
    }
    acc
}

pub fn sq_dev_of<S: Series + ?Sized>(s: &S, lo: usize, hi: usize, center: Fp) -> (r: Fp)
    requires
        lo <= hi <= s.seq().len(),
    ensures
        r == sq_dev_range(s.seq(), lo as int, hi as int, center),
{
    let mut acc = Fp(ZERO);
    let mut i: usize = lo;
    while i < hi
        invariant
            lo <= i <= hi <= s.seq().len(),
            acc == sq_dev_range(s.seq(), lo as int, i as int, center),
        decreases hi - i,
    {
        acc = acc.add(s.at(i).sub(center).sq());
        i = i + 1;
    }
    acc
}

pub fn abs_dev_of<S: Series + ?Sized>(s: &S, lo: usize, hi: usize, center: Fp) -> (r: Fp)
    requires
        lo <= hi <= s.seq().len(),
    ensures
        r == abs_dev_range(s.seq(), lo as int, hi as int, center),
{
    let mut acc = Fp(ZERO);
    let mut i: usize = lo;
    while i < hi
        invariant
            lo <= i <= hi <= s.seq().len(),
            acc == abs_dev_range(s.seq(), lo as int, i as int, center),
        decreases hi - i,
    {
        acc = acc.add(s.at(i).sub(center).abs());
        i = i + 1;
    }
    acc
}

/// Whether a sample at positions `lo..hi` is a NaN.
pub fn has_nan<S: Series + ?Sized>(s: &S, lo: usize, hi: usize) -> (r: bool)
    requires
        lo <= hi <= s.seq().len(),
    ensures
        r == any_nan(s.seq(), lo as int, hi as int),
{
    let mut i: usize = lo;
    while i < hi
        invariant
            lo <= i <= hi <= s.seq().len(),
            !any_nan(s.seq(), lo as int, i as int),
        decreases hi - i,
    {
        if s.at(i).is_nan() {
            return true;
        }
        i = i + 1;
    }
    false
}

pub fn ramp_dot_of<S: Series + ?Sized>(s: &S, lo: usize, hi: usize) -> (r: Fp)
    requires
        lo <= hi <= s.seq().len(),
    ensures
        r == ramp_dot(s.seq(), lo as int, hi as int),
{
    let mut acc = Fp(ZERO);
    let mut i: usize = lo;
    while i < hi
        invariant
            lo <= i <= hi <= s.seq().len(),
            acc == ramp_dot(s.seq(), lo as int, i as int),
        decreases hi - i,
    {
        acc = acc.add(s.at(i).mul(Fp::from_usize(i - lo + 1)));
        i = i + 1;
    }
    acc
}

pub fn ramp_total_of(n: usize) -> (r: Fp)
    ensures
        r == ramp_total(n as nat),
{
    let mut acc = Fp(ZERO);
    let mut i: usize = 0;
    while i < n
        invariant
            i <= n,
            acc == ramp_total(i as nat),
        decreases n - i,
    {
        i = i + 1;
        acc = acc.add(Fp::from_usize(i));
    }
    acc
}

/// One more than `n`, unless that would overflow.
pub fn bumped(n: usize) -> (r: usize)
    ensures
        r == bump(n as nat),
{
    if n < usize::MAX {
        n + 1
    } else {
        n
    }
}

/// The last position whose sample equals `x` as doubles compare.
pub fn last_eq_of<S: Series + ?Sized>(s: &S, x: Fp) -> (r: Option<usize>)
    ensures
        match r {
            Some(k) => last_eq(s.seq(), x, s.seq().len() as int) == Some(k as int),
            None => last_eq(s.seq(), x, s.seq().len() as int) == None::<int>,
        },
{
    let mut n: usize = s.length();
    while n > 0
        invariant
            n <= s.seq().len(),
            last_eq(s.seq(), x, s.seq().len() as int) == last_eq(s.seq(), x, n as int),
        decreases n,
    {
        if s.at(n - 1).eq(x) {
            return Some(n - 1);
        }
        n = n - 1;
    }
    None
}

pub fn path_length_of<S: Series + ?Sized>(s: &S) -> (r: Fp)
    ensures
        r == path_length(s.seq(), s.seq().len() as int),
{
    let n = s.length();
    let mut acc = Fp(ZERO);
    let mut i: usize = 1;
    while i < n
        invariant
            1 <= i,
            n == s.seq().len(),
            i <= n || n == 0,
            acc == path_length(s.seq(), if n == 0 { 0 } else { i as int }),
        decreases n - i,
    {
        acc = acc.add(s.at(i).sub(s.at(i - 1)).abs());
        i = i + 1;
    }
    acc
}

pub fn index_dot_of<S: Series + ?Sized>(s: &S, lo: usize, hi: usize) -> (r: Fp)
    requires
        lo <= hi <= s.seq().len(),
    ensures
        r == index_dot(s.seq(), lo as int, hi as int),
{
    let mut acc = Fp(ZERO);
    let mut i: usize = lo;
    while i < hi
        invariant
            lo <= i <= hi <= s.seq().len(),
            acc == index_dot(s.seq(), lo as int, i as int),
        decreases hi - i,
    {
        acc = acc.add(Fp::from_usize(i - lo).mul(s.at(i)));
        i = i + 1;
    }
    acc
}

pub fn count_le_of<S: Series + ?Sized>(s: &S, lo: usize, hi: usize, x: Fp) -> (r: usize)
    requires
        lo <= hi <= s.seq().len(),
    ensures
        r == count_le(s.seq(), lo as int, hi as int, x),
        r <= hi - lo,
{
    let mut count: usize = 0;
    let mut i: usize = lo;
    while i < hi
        invariant
            lo <= i <= hi <= s.seq().len(),
            count == count_le(s.seq(), lo as int, i as int, x),
            count <= i - lo,
        decreases hi - i,
    {
        if s.at(i).le(x) {
            count = count + 1;
        }
        i = i + 1;
    }
    count
}

pub fn deepest_drawdown_of<S: Series + ?Sized>(s: &S) -> (r: Fp)
    requires
        s.seq().len() >= 1,
    ensures
        r == deepest_drawdown(s.seq(), s.seq().len() as int),
{
    let n = s.length();
    let mut running_max = s.at(0);
    let mut deepest = Fp(ZERO);
    let mut i: usize = 1;
    while i < n
        invariant
            1 <= i <= n,
            n == s.seq().len(),
            running_max == peak(s.seq(), i as int),
            deepest == deepest_drawdown(s.seq(), i as int),
        decreases n - i,
    {
        let price = s.at(i);
        running_max = running_max.max(price);
        let drawdown = price.sub(running_max).div(running_max);
        deepest = deepest.min(drawdown);
        i = i + 1;
    }
    deepest
}

/// The last position in `lo..hi` whose sample equals `x` as doubles compare.
pub fn last_eq_in_of<S: Series + ?Sized>(s: &S, x: Fp, lo: usize, hi: usize) -> (r: Option<usize>)
    requires
        lo <= hi <= s.seq().len(),
    ensures
        match r {
            Some(k) => lo <= k < hi && last_eq_in(s.seq(), x, lo as int, hi as int) == Some(
                k as int,
            ),
            None => last_eq_in(s.seq(), x, lo as int, hi as int) == None::<int>,
        },
{
    let mut n: usize = hi;
    while n > lo
        invariant
            lo <= n <= hi <= s.seq().len(),
            last_eq_in(s.seq(), x, lo as int, hi as int) == last_eq_in(
                s.seq(),
                x,
                lo as int,
                n as int,
            ),
        decreases n - lo,
    {
        if s.at(n - 1).eq(x) {
            return Some(n - 1);
        }
        n = n - 1;
    }
    None
}

pub fn defined_sum_of<S: Series + ?Sized>(s: &S, lo: usize, hi: usize) -> (r: Fp)
    requires
        lo <= hi <= s.seq().len(),
    ensures
        r == defined_sum_range(s.seq(), lo as int, hi as int),
{
    let mut acc = Fp(ZERO);
    let mut i: usize = lo;
    while i < hi
        invariant
            lo <= i <= hi <= s.seq().len(),
            acc == defined_sum_range(s.seq(), lo as int, i as int),
        decreases hi - i,
    {
        let x = s.at(i);
        if !x.is_nan() {
            acc = acc.add(x);
        }
        i = i + 1;
    }
    acc
}

pub fn dot_of(a: &[Fp], b: &[Fp], lo: usize, hi: usize) -> (r: Fp)
    requires
        lo <= hi <= a@.len(),
        hi <= b@.len(),
    ensures
        r == dot_range(a@, b@, lo as int, hi as int),
{
    let mut acc = Fp(ZERO);
    let mut i: usize = lo;
    while i < hi
        invariant
            lo <= i <= hi <= a@.len(),
            hi <= b@.len(),
            acc == dot_range(a@, b@, lo as int, i as int),
        decreases hi - i,
    {
        acc = acc.add(a[i].mul(b[i]));
        i = i + 1;
    }
    acc
}

/// A vector of `n` undefined values.
pub fn undefined_vec(n: usize) -> (v: Vec<Fp>)
    ensures
        v@ == undefined(n as nat),
{
    let mut v: Vec<Fp> = Vec::new();
    let mut i: usize = 0;
    while i < n
        invariant
            i <= n,
            v@ == undefined(i as nat),
        decreases n - i,
    {
        v.push(Fp(NAN));
        i = i + 1;
        assert(v@ =~= undefined(i as nat));
    }
    v
}

/// The mean of a full window: its sum over its configured length.
pub open spec fn window_mean(s: Seq<Fp>, window: nat) -> Fp {
    sum(s).div_spec(of_nat(window))
}

/// The population variance of a full window: the mean squared distance of
/// its samples from their mean.
pub open spec fn population_variance(s: Seq<Fp>, window: nat) -> Fp {
    sq_dev_range(s, 0, s.len() as int, window_mean(s, window)).div_spec(of_nat(window))
}

/// The population standard deviation of a full window.
pub open spec fn population_std(s: Seq<Fp>, window: nat) -> Fp {
    population_variance(s, window).sqrt_spec()
}

pub fn window_mean_of<S: Series + ?Sized>(w: &S, window: usize) -> (r: Fp)
    ensures
        r == window_mean(w.seq(), window as nat),
{
    sum_of(w, 0, w.length()).div(Fp::from_usize(window))
}

pub fn population_variance_of<S: Series + ?Sized>(w: &S, window: usize) -> (r: Fp)
    ensures
        r == population_variance(w.seq(), window as nat),
{
    let mean = window_mean_of(w, window);
    sq_dev_of(w, 0, w.length(), mean).div(Fp::from_usize(window))
}

/// Whether every sample at positions `lo..hi` is `x`.
pub open spec fn flat(s: Seq<Fp>, lo: int, hi: int, x: Fp) -> bool {
    forall|i: int| lo <= i < hi ==> #[trigger] s[i] == x
}

/// The squared and the absolute distances of a flat run from its own value
/// add up to zero.
pub proof fn lemma_flat_deviations(s: Seq<Fp>, lo: int, hi: int, x: Fp)
    requires
        flat(s, lo, hi, x),
        x.finite(),
    ensures
        sq_dev_range(s, lo, hi, x) == Fp(ZERO),
        abs_dev_range(s, lo, hi, x) == Fp(ZERO),
    decreases hi - lo,
{
    if hi > lo {
        lemma_flat_deviations(s, lo, hi - 1, x);
        assert(s[hi - 1] == x);
        assert(x.sub_spec(x) == Fp(ZERO));
    }
}

/// Zero over a window's length is zero.
pub proof fn lemma_zero_over_length(n: nat)
    requires
        1 <= n < EXACT_LIMIT,
    ensures
        Fp(ZERO).div_spec(of_nat(n)) == Fp(ZERO),
{
    lemma_exact_positive(n);
}

/// A run of `n` copies of `x`.
pub open spec fn flat_run(x: Fp, n: nat) -> Seq<Fp> {
    Seq::new(n, |i: int| x)
}

/// Whether `x` is a number and the mean of `window` copies of it, added up
/// and divided as every window's mean is, comes back as `x` itself.
pub open spec fn flat_mean_exact(x: Fp, window: nat) -> bool {
    &&& 1 <= window < EXACT_LIMIT
    &&& x.finite()
    &&& window_mean(flat_run(x, window), window) == x
}

/// Adds up `window` copies of `x`, divides by `window`, and tests whether
/// `x` comes back. Where it does, a window of `window` copies of `x` has no
/// spread: its variance, its standard deviation and its mean absolute
/// deviation are zero.
pub fn flat_mean_is_exact(x: Fp, window: usize) -> (ok: bool)
    ensures
        ok == flat_mean_exact(x, window as nat),
        ok ==> population_variance(flat_run(x, window as nat), window as nat) == Fp(ZERO),
        ok ==> population_std(flat_run(x, window as nat), window as nat) == Fp(ZERO),
        ok ==> abs_dev_range(flat_run(x, window as nat), 0, window as int, x).div_spec(
            of_nat(window as nat),
        ) == Fp(ZERO),
{
    if window == 0 || window as u64 >= EXACT_LIMIT || !x.is_finite() {
        return false;
    }
    let ghost copies = flat_run(x, window as nat);
    let mut acc = Fp(ZERO);
    let mut i: usize = 0;
    while i < window
        invariant
            i <= window,
            copies == flat_run(x, window as nat),
            acc == sum_range(copies, 0, i as int),
        decreases window - i,
    {
        assert(copies[i as int] == x);
        acc = acc.add(x);
        i = i + 1;
    }
    let mean = acc.div(Fp::from_usize(window));
    let ok = mean.to_bits() == x.to_bits();
    proof {
        if ok {
            assert(mean == x);
            lemma_flat_deviations(copies, 0, window as int, x);
            lemma_zero_over_length(window as nat);
        }
    }
    ok
}

/// Folding a stretch cut out of a series is folding that stretch in place:
/// the sum, the squared distances from a centre, the weighted sums, the
/// count of samples up to a bound, and the extremes of `a..b` in the cut
/// `lo..hi` are those of `lo + a..lo + b` in the series.
pub proof fn lemma_folds_of_cut(s: Seq<Fp>, lo: int, hi: int, a: int, b: int, center: Fp)
    requires
        0 <= lo <= hi <= s.len(),
        0 <= a <= b <= hi - lo,
    ensures
        sum_range(s.subrange(lo, hi), a, b) == sum_range(s, lo + a, lo + b),
        sq_dev_range(s.subrange(lo, hi), a, b, center) == sq_dev_range(s, lo + a, lo + b, center),
        ramp_dot(s.subrange(lo, hi), a, b) == ramp_dot(s, lo + a, lo + b),
        index_dot(s.subrange(lo, hi), a, b) == index_dot(s, lo + a, lo + b),
        count_le(s.subrange(lo, hi), a, b, center) == count_le(s, lo + a, lo + b, center),
        max_range(s.subrange(lo, hi), a, b) == max_range(s, lo + a, lo + b),
        min_range(s.subrange(lo, hi), a, b) == min_range(s, lo + a, lo + b),
    decreases b - a,
{
    if b > a {
        lemma_folds_of_cut(s, lo, hi, a, b - 1, center);
        assert(s.subrange(lo, hi)[b - 1] == s[lo + b - 1]);
    }
}

/// Looking for the last sample equal to `x` in a stretch cut out of a series
/// finds what looking in that stretch in place finds, counted from the
/// stretch's start.
pub proof fn lemma_last_eq_of_cut(s: Seq<Fp>, x: Fp, lo: int, hi: int, m: int)
    requires
        0 <= lo <= hi <= s.len(),
        0 <= m <= hi - lo,
    ensures
        last_eq(s.subrange(lo, hi), x, m) == match last_eq_in(s, x, lo, lo + m) {
            Some(j) => Some(j - lo),
            None => None::<int>,
        },
    decreases m,
{
    if m > 0 {
        assert(s.subrange(lo, hi)[m - 1] == s[lo + m - 1]);
        lemma_last_eq_of_cut(s, x, lo, hi, m - 1);
    }
}

} // verus!
