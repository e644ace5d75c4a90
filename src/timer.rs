//! A pure value timer advanced by elapsed time.
use vstd::prelude::*;

verus! {

/// One second, in microseconds: the time unit of every timer.
pub const MICROS_PER_SECOND: u64 = 1_000_000;

/// A timer counting up to `duration` microseconds.
///
/// A one-shot timer stops at its duration and reports completion once; a
/// repeating timer wraps around and reports completion on every tick that
/// reaches its duration.
#[derive(Clone, Copy, Debug, PartialEq, Eq, Structural)]
pub struct Timer {
    pub duration: u64,
    pub elapsed: u64,
    pub repeating: bool,
    pub finished: bool,
}

impl Timer {
    pub open spec fn wf(&self) -> bool {
        &&& 0 < self.duration
        &&& self.elapsed <= self.duration
        &&& !self.repeating ==> (self.finished <==> self.elapsed == self.duration)
        &&& self.repeating ==> self.elapsed < self.duration
    }

    /// The timer after `delta` more microseconds, and whether it completed
    /// on this tick.
    pub open spec fn ticked(self, delta: u64) -> (Timer, bool) {
        let total = self.elapsed + delta;
        if self.repeating {
            let done = total >= self.duration;
            (Timer { elapsed: (total % (self.duration as int)) as u64, finished: done, ..self }, done)
        } else if self.finished {
            (self, false)
        } else {
            let done = total >= self.duration;
            (Timer { elapsed: if done { self.duration } else { total as u64 }, finished: done, ..self }, done)
        }
    }

    /// A fresh timer of `duration` microseconds with nothing elapsed.
    pub fn new(duration: u64, repeating: bool) -> (r: Timer)
        requires
            duration > 0,
        ensures
            r.wf(),
            r == (Timer { duration, elapsed: 0, repeating, finished: false }),
    {
        Timer { duration, elapsed: 0, repeating, finished: false }
    }

    /// Advances the timer by `delta` microseconds; returns whether it
    /// completed on this tick.
    pub fn tick(&mut self, delta: u64) -> (just_finished: bool)
        requires
            old(self).wf(),
        ensures
            final(self).wf(),
            (*final(self), just_finished) == old(self).ticked(delta),
    {
        let total: u128 = self.elapsed as u128 + delta as u128;
        if self.repeating {
            let done = total >= self.duration as u128;
            self.elapsed = (total % (self.duration as u128)) as u64;
            self.finished = done;
            done
        } else if self.finished {
            false
        } else {
            let done = total >= self.duration as u128;
            if done {
                self.elapsed = self.duration;
            } else {
                self.elapsed = total as u64;
            }
            self.finished = done;
            done
        }
    }

    /// Whether a one-shot timer has run out.
    pub fn is_finished(&self) -> (r: bool)
        ensures
            r == self.finished,
    {
        self.finished
    }
}

} // verus!
