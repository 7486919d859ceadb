//! The sliding window of recent stage timings behind the metrics quantiles.
use vstd::prelude::*;
use std::collections::VecDeque;

verus! {

/// How many of the most recent samples a tracker keeps.
pub const WINDOW: usize = 300;

/// One step of the window: the new sample goes last, and the oldest one
/// leaves when the window is full.
pub open spec fn window_push<T>(samples: Seq<T>, value: T) -> Seq<T> {
    if samples.len() >= WINDOW {
        samples.drop_first().push(value)
    } else {
        samples.push(value)
    }
}

/// The window after pushing `values` in order onto `samples`.
pub open spec fn window_push_all<T>(samples: Seq<T>, values: Seq<T>) -> Seq<T>
    decreases values.len(),
{
    if values.len() == 0 {
        samples
    } else {
        window_push(window_push_all(samples, values.drop_last()), values.last())
    }
}

/// The most recent samples of one pipeline stage, at most `WINDOW` of them.
pub struct QuantileTracker<T> {
    buf: VecDeque<T>,
}

impl<T> QuantileTracker<T> {
    #[verifier::type_invariant]
    spec fn bounded(&self) -> bool {
        self.buf@.len() <= WINDOW
    }

    /// The samples held, oldest first.
    pub closed spec fn samples(&self) -> Seq<T> {
        self.buf@
    }

    /// An empty tracker.
    pub fn new() -> (t: Self)
        ensures
            t.samples() == Seq::<T>::empty(),
    {
        QuantileTracker { buf: VecDeque::with_capacity(WINDOW) }
    }

    /// Adds a sample, dropping the oldest one when the window is full.
    pub fn push(&mut self, value: T)
        ensures
            final(self).samples() == window_push(old(self).samples(), value),
            final(self).samples().len() <= WINDOW,
    {
        proof {
            use_type_invariant(&*self);
        }
        let mut buf = VecDeque::new();
        std::mem::swap(&mut buf, &mut self.buf);
        if buf.len() >= WINDOW {
            buf.pop_front();
        }
        buf.push_back(value);
        self.buf = buf;
    }

    /// The number of samples held.
    pub fn len(&self) -> (n: usize)
        ensures
            n == self.samples().len(),
            n <= WINDOW,
    {
        proof {
            use_type_invariant(self);
        }
        self.buf.len()
    }

    /// The sample at position `i`, oldest first.
    pub fn get(&self, i: usize) -> (r: &T)
        requires
            i < self.samples().len(),
        ensures
            *r == self.samples()[i as int],
    {
        &self.buf[i]
    }
}

/// A tracker keeps exactly the last `WINDOW` samples pushed (all of them
/// while fewer were pushed), in the order they came.
pub proof fn law_window_keeps_latest<T>(values: Seq<T>)
    ensures
        window_push_all(Seq::<T>::empty(), values) == values.skip(
            if values.len() > WINDOW {
                values.len() - WINDOW
            } else {
                0
            },
        ),
    decreases values.len(),
{
    if values.len() > 0 {
        let prev = values.drop_last();
        law_window_keeps_latest(prev);
        let w = window_push_all(Seq::<T>::empty(), prev);
        if prev.len() >= WINDOW {
            assert(w.drop_first().push(values.last()) =~= values.skip(values.len() - WINDOW));
        } else {
            assert(w.push(values.last()) =~= values.skip(0));
        }
    } else {
        assert(values.skip(0) =~= values);
    }
}

} // verus!
