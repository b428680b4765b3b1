//! The rolling window: a first-in, first-out buffer that never holds more
//! than its capacity.

use std::collections::VecDeque;
use vstd::prelude::*;
use crate::fp::Fp;
use crate::series::Series;

verus! {

/// What a window holds after `x` arrives: `x` is appended, and the oldest
/// sample leaves when that makes the window longer than `cap`.
pub open spec fn slide(s: Seq<Fp>, x: Fp, cap: nat) -> Seq<Fp> {
    if s.len() + 1 > cap {
        s.push(x).drop_first()
    } else {
        s.push(x)
    }
}

/// The sample that leaves when `x` arrives, if one does.
pub open spec fn evicted(s: Seq<Fp>, x: Fp, cap: nat) -> Option<Fp> {
    if s.len() + 1 > cap {
        Some(s.push(x)[0])
    } else {
        None
    }
}

/// A buffer of the most recent samples, oldest first.
pub struct Window {
    cap: usize,
    buf: VecDeque<Fp>,
}

impl View for Window {
    type V = Seq<Fp>;

    closed spec fn view(&self) -> Seq<Fp> {
        self.buf@
    }
}

impl Window {
    /// The largest number of samples the window holds.
    pub closed spec fn capacity(&self) -> nat {
        self.cap as nat
    }

    /// The window holds no more than its capacity.
    pub open spec fn wf(&self) -> bool {
        self@.len() <= self.capacity()
    }

    pub fn new(cap: usize) -> (w: Window)
        ensures
            w.wf(),
            w@ == Seq::<Fp>::empty(),
            w.capacity() == cap,
    {
        Window { cap, buf: VecDeque::new() }
    }

    pub fn len(&self) -> (n: usize)
        ensures
            n == self@.len(),
    {
        self.buf.len()
    }

    pub fn cap(&self) -> (n: usize)
        ensures
            n == self.capacity(),
    {
        self.cap
    }

    pub fn is_full(&self) -> (b: bool)
        ensures
            b == (self@.len() >= self.capacity()),
    {
        self.buf.len() >= self.cap
    }

    pub fn get(&self, i: usize) -> (x: Fp)
        requires
            i < self@.len(),
        ensures
            x == self@[i as int],
    {
        self.buf[i]
    }

    /// Appends `x` and evicts the oldest sample if the window was full.
    pub fn push(&mut self, x: Fp) -> (out: Option<Fp>)
        requires
            old(self).wf(),
        ensures
            final(self).wf(),
            final(self).capacity() == old(self).capacity(),
            final(self)@ == slide(old(self)@, x, old(self).capacity()),
            out == evicted(old(self)@, x, old(self).capacity()),
    {
        self.buf.push_back(x);
        if self.buf.len() > self.cap {
            self.buf.pop_front()
        } else {
            None
        }
    }

    pub fn clear(&mut self)
        ensures
            final(self).wf(),
            final(self).capacity() == old(self).capacity(),
            final(self)@ == Seq::<Fp>::empty(),
    {
        self.buf.clear();
    }

    /// The samples, oldest first, as a vector.
    pub fn to_vec(&self) -> (v: Vec<Fp>)
        ensures
            v@ == self@,
    {
        let mut v: Vec<Fp> = Vec::new();
        let mut i: usize = 0;
        while i < self.buf.len()
            invariant
                i <= self.buf@.len(),
                v@ == self.buf@.take(i as int),
            decreases self.buf@.len() - i,
        {
            v.push(self.buf[i]);
            i = i + 1;
            assert(v@ =~= self.buf@.take(i as int));
        }
        assert(self.buf@.take(i as int) =~= self.buf@);
        v
    }
}

impl Series for Window {
    open spec fn seq(&self) -> Seq<Fp> {
        self@
    }

    fn length(&self) -> (n: usize) {
        self.len()
    }

    fn at(&self, i: usize) -> (x: Fp) {
        self.get(i)
    }
}

/// State of a streaming unit that holds nothing but its last samples.
pub struct SamplesState {
    pub window: nat,
    pub buffer: Seq<Fp>,
}

impl SamplesState {
    /// The state of a new unit.
    pub open spec fn init(window: nat) -> SamplesState {
        SamplesState { window, buffer: Seq::empty() }
    }

    /// The window is positive and the buffer holds no more than it.
    pub open spec fn valid(self) -> bool {
        self.window >= 1 && self.buffer.len() <= self.window
    }

    /// The state after `value` has arrived.
    pub open spec fn pushed(self, value: Fp) -> SamplesState {
        SamplesState { window: self.window, buffer: slide(self.buffer, value, self.window) }
    }
}

/// What a window holds after the samples `xs` have arrived, in order, at a
/// window that held `s`.
pub open spec fn fed(s: Seq<Fp>, xs: Seq<Fp>, cap: nat) -> Seq<Fp>
    decreases xs.len(),
{
    if xs.len() == 0 {
        s
    } else {
        slide(fed(s, xs.drop_last(), cap), xs.last(), cap)
    }
}

/// The last `n` samples of `xs`, or all of them if there are fewer.
pub open spec fn tail(xs: Seq<Fp>, n: nat) -> Seq<Fp> {
    if xs.len() <= n {
        xs
    } else {
        xs.subrange(xs.len() - n, xs.len() as int)
    }
}

/// A window within its capacity stays within it, whatever arrives and
/// however much of it.
pub proof fn lemma_fed_bounded(s: Seq<Fp>, xs: Seq<Fp>, cap: nat)
    requires
        s.len() <= cap,
    ensures
        fed(s, xs, cap).len() <= cap,
    decreases xs.len(),
{
    if xs.len() > 0 {
        lemma_fed_bounded(s, xs.drop_last(), cap);
    }
}

/// An empty window that has been fed `xs` holds exactly the last `cap`
/// samples of `xs`, oldest first.
pub proof fn lemma_fed_is_tail(xs: Seq<Fp>, cap: nat)
    ensures
        fed(Seq::empty(), xs, cap) == tail(xs, cap),
    decreases xs.len(),
{
    if xs.len() > 0 {
        let before = xs.drop_last();
        lemma_fed_is_tail(before, cap);
        assert(slide(tail(before, cap), xs.last(), cap) =~= tail(xs, cap));
    } else {
        assert(fed(Seq::<Fp>::empty(), xs, cap) =~= tail(xs, cap));
    }
}

} // verus!
