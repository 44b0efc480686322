//! The gravity timer: an accumulator of elapsed time that fires when a fixed
//! interval is reached.

use vstd::arithmetic::div_mod::{lemma_mod_add_multiples_vanish, lemma_small_mod};
use vstd::prelude::*;

verus! {

/// The default interval between two gravity steps, in microseconds.
pub const DEFAULT_INTERVAL: u64 = 500_000;

/// A timer as the contracts see it.
pub struct TimerState {
    /// The time between two firings. With an interval of 0 the timer fires
    /// whenever it is advanced.
    pub interval: nat,
    /// The time gathered since the timer last fired.
    pub elapsed: nat,
}

impl TimerState {
    /// The time gathered is below the interval, or both are 0.
    pub open spec fn wf(self) -> bool {
        if self.interval == 0 {
            self.elapsed == 0
        } else {
            self.elapsed < self.interval
        }
    }

    /// Whether the timer fires when `delta` more has passed.
    pub open spec fn fires(self, delta: nat) -> bool {
        self.elapsed + delta >= self.interval
    }

    /// The timer after `delta` more has passed: what goes beyond a whole
    /// number of intervals is kept.
    pub open spec fn advanced(self, delta: nat) -> TimerState {
        if self.interval == 0 {
            self
        } else {
            TimerState { interval: self.interval, elapsed: (self.elapsed + delta) % self.interval }
        }
    }
}

/// The timer that paces the fall of the piece. Its unit of time is that of
/// its user; the game counts in microseconds.
#[derive(Clone, Copy, Debug)]
pub struct MovementTimer {
    interval: u64,
    elapsed: u64,
}

impl View for MovementTimer {
    type V = TimerState;

    closed spec fn view(&self) -> TimerState {
        TimerState { interval: self.interval as nat, elapsed: self.elapsed as nat }
    }
}

impl MovementTimer {
    /// A timer that fires every `interval`, with no time gathered.
    pub fn new(interval: u64) -> (timer: MovementTimer)
        ensures
            timer@ == (TimerState { interval: interval as nat, elapsed: 0 }),
            timer@.wf(),
    {
        MovementTimer { interval, elapsed: 0 }
    }

    /// Adds `delta` to the time gathered and says whether the interval was
    /// reached. It fires once however many intervals have passed.
    pub fn tick(&mut self, delta: u64) -> (fired: bool)
        requires
            old(self)@.wf(),
        ensures
            final(self)@.wf(),
            fired == old(self)@.fires(delta as nat),
            final(self)@ == old(self)@.advanced(delta as nat),
    {
        if self.interval == 0 {
            return true;
        }
        let room = self.interval - self.elapsed;
        if delta < room {
            proof {
                lemma_small_mod((self.elapsed + delta) as nat, self.interval as nat);
            }
            self.elapsed = self.elapsed + delta;
            false
        } else {
            proof {
                lemma_mod_add_multiples_vanish(delta - room, self.interval as int);
            }
            self.elapsed = (delta - room) % self.interval;
            true
        }
    }

    /// The time between two firings.
    pub fn interval(&self) -> (interval: u64)
        ensures
            interval == self@.interval,
    {
        self.interval
    }

    /// The time gathered since the timer last fired.
    pub fn elapsed(&self) -> (elapsed: u64)
        ensures
            elapsed == self@.elapsed,
    {
        self.elapsed
    }
}

} // verus!
