//! A stepping cursor: successive integer positions from a start, by a signed
//! step, optionally bounded by a stop at which it comes to rest.

use vstd::prelude::*;

verus! {

/// What a counter is, as plain numbers.
pub struct CounterView {
    pub start: int,
    pub stop: Option<int>,
    pub step: int,
    pub current: int,
}

impl CounterView {
    /// The position that follows the current one. Without a stop it is one
    /// step further. With a stop, a step that would reach or pass the stop in
    /// the direction of travel ends on the stop instead.
    pub open spec fn next_position(self) -> int {
        let target = self.current + self.step;
        match self.stop {
            None => target,
            Some(stop) => if self.step >= 0 {
                if target >= stop {
                    stop
                } else {
                    target
                }
            } else {
                if target <= stop {
                    stop
                } else {
                    target
                }
            },
        }
    }

    /// The counter after one call of `next`.
    pub open spec fn advanced(self) -> CounterView {
        CounterView { current: self.next_position(), ..self }
    }

    /// The counter after `n` calls of `next`.
    pub open spec fn advanced_by(self, n: nat) -> CounterView
        decreases n,
    {
        if n == 0 {
            self
        } else {
            self.advanced_by((n - 1) as nat).advanced()
        }
    }

    /// A bounded counter is exhausted once it rests on its stop.
    pub open spec fn exhausted(self) -> bool {
        self.stop == Some(self.current)
    }

    /// Whether the next position can be held in a `usize`. A bounded counter
    /// never leaves the range between its position and its stop, so only an
    /// unbounded one can run out of room.
    pub open spec fn has_room(self) -> bool {
        self.stop is None ==> 0 <= self.current + self.step <= usize::MAX
    }
}

/// A cursor that steps through integer positions.
pub struct Counter {
    start: usize,
    stop: Option<usize>,
    step: isize,
    current: usize,
}

impl View for Counter {
    type V = CounterView;

    closed spec fn view(&self) -> CounterView {
        CounterView {
            start: self.start as int,
            stop: match self.stop {
                Some(stop) => Some(stop as int),
                None => None,
            },
            step: self.step as int,
            current: self.current as int,
        }
    }
}

impl Counter {
    /// Counts up from `start` by one, without a bound.
    pub fn up(start: usize) -> (counter: Counter)
        ensures
            counter@ == (CounterView { start: start as int, stop: None, step: 1, current: start as int }),
    {
        Counter { start, stop: None, step: 1, current: start }
    }

    /// Counts from `start` by `step`, without a bound.
    pub fn in_steps(start: usize, step: isize) -> (counter: Counter)
        ensures
            counter@ == (CounterView {
                start: start as int,
                stop: None,
                step: step as int,
                current: start as int,
            }),
    {
        Counter { start, stop: None, step, current: start }
    }

    /// Counts from `start` by `step` and comes to rest on `stop`.
    pub fn in_steps_to(start: usize, step: isize, stop: usize) -> (counter: Counter)
        ensures
            counter@ == (CounterView {
                start: start as int,
                stop: Some(stop as int),
                step: step as int,
                current: start as int,
            }),
    {
        Counter { start, stop: Some(stop), step, current: start }
    }

    /// Counts up from `start` by one and comes to rest `count` positions on.
    pub fn up_to(start: usize, count: usize) -> (counter: Counter)
        requires
            start + count <= usize::MAX,
        ensures
            counter@ == (CounterView {
                start: start as int,
                stop: Some(start + count),
                step: 1,
                current: start as int,
            }),
    {
        Counter { start, stop: Some(start + count), step: 1, current: start }
    }

    /// Counts down from `start` by one and comes to rest on `stop`.
    pub fn down_to(start: usize, stop: usize) -> (counter: Counter)
        ensures
            counter@ == (CounterView {
                start: start as int,
                stop: Some(stop as int),
                step: -1,
                current: start as int,
            }),
    {
        Counter { start, stop: Some(stop), step: -1, current: start }
    }

    /// Rewinds to the start; stop and step stay as they are.
    pub fn reset(&mut self)
        ensures
            final(self)@ == (CounterView { current: old(self)@.start, ..old(self)@ }),
    {
        self.current = self.start;
    }

    /// Returns the current position, then moves on to the next one.
    pub fn next(&mut self) -> (value: usize)
        requires
            old(self)@.has_room(),
        ensures
            value == old(self)@.current,
            final(self)@ == old(self)@.advanced(),
    {
        let value = self.current;
        let forward = self.step >= 0;
        let stride: usize = if forward {
            self.step as usize
        } else {
            (-(self.step + 1)) as usize + 1
        };
        assert(stride == if self.step >= 0 { self.step as int } else { -(self.step as int) });
        self.current = match self.stop {
            Some(stop) => {
                if forward {
                    if value >= stop || stride >= stop - value {
                        stop
                    } else {
                        value + stride
                    }
                } else {
                    if value <= stop || stride >= value - stop {
                        stop
                    } else {
                        value - stride
                    }
                }
            },
            None => {
                if forward {
                    value + stride
                } else {
                    value - stride
                }
            },
        };
        value
    }

    /// Whether the counter has a stop and rests on it.
    pub fn is_exhausted(&self) -> (done: bool)
        ensures
            done == self@.exhausted(),
    {
        match self.stop {
            Some(stop) => self.current == stop,
            None => false,
        }
    }

    /// Whether `next` may be called: whether the next position fits.
    pub fn can_advance(&self) -> (ok: bool)
        ensures
            ok == self@.has_room(),
    {
        match self.stop {
            Some(_) => true,
            None => {
                if self.step >= 0 {
                    self.step as usize <= usize::MAX - self.current
                } else {
                    (-(self.step + 1)) as usize + 1 <= self.current
                }
            },
        }
    }
}

/// Once a counter rests on its stop, `next` leaves it there.
pub proof fn lemma_exhausted_stays(c: CounterView)
    requires
        c.exhausted(),
    ensures
        c.advanced() == c,
{
}

/// A bounded counter never leaves the span between its position and its
/// stop, and never moves away from the stop.
pub proof fn lemma_bounded_approaches_stop(c: CounterView)
    requires
        c.stop is Some,
    ensures
        c.step >= 0 && c.current <= c.stop->0 ==> c.current <= c.advanced().current <= c.stop->0,
        c.step < 0 && c.current >= c.stop->0 ==> c.stop->0 <= c.advanced().current <= c.current,
{
}

/// Without a stop, `n` calls of `next` move the counter by `n` steps.
pub proof fn lemma_unbounded_position(c: CounterView, n: nat)
    requires
        c.stop is None,
    ensures
        c.advanced_by(n) == (CounterView { current: c.current + n * c.step, ..c }),
    decreases n,
{
    if n > 0 {
        lemma_unbounded_position(c, (n - 1) as nat);
        assert((n - 1) * c.step + c.step == n * c.step) by (nonlinear_arith);
    } else {
        assert(n * c.step == 0) by (nonlinear_arith)
            requires
                n == 0,
        ;
    }
}

} // verus!
