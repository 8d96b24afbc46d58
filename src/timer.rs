use vstd::prelude::*;

verus! {

/// A one-shot countdown over milliseconds: time is added up to the duration,
/// and the timer is finished once it gets there.
#[derive(Clone, Copy, Debug, PartialEq, Eq, Structural)]
pub struct Timer {
    pub duration: u64,
    pub elapsed: u64,
}

/// Elapsed time after adding `dt`, stopping at the duration.
pub open spec fn ticked(t: Timer, dt: int) -> u64 {
    if t.elapsed + dt >= t.duration {
        t.duration
    } else {
        (t.elapsed + dt) as u64
    }
}

impl Timer {
    pub open spec fn wf(self) -> bool {
        self.elapsed <= self.duration
    }

    pub open spec fn is_finished(self) -> bool {
        self.elapsed >= self.duration
    }

    /// A timer of the given duration that has just started.
    pub fn new(duration: u64) -> (r: Timer)
        ensures
            r == (Timer { duration, elapsed: 0 }),
    {
        Timer { duration, elapsed: 0 }
    }

    /// A timer of the given duration that has already run out.
    pub fn new_finished(duration: u64) -> (r: Timer)
        ensures
            r == (Timer { duration, elapsed: duration }),
    {
        Timer { duration, elapsed: duration }
    }

    /// Lets `dt` milliseconds pass.
    pub fn tick(&mut self, dt: u64)
        requires
            old(self).wf(),
        ensures
            final(self).duration == old(self).duration,
            final(self).elapsed == ticked(*old(self), dt as int),
            final(self).wf(),
    {
        if dt >= self.duration - self.elapsed {
            self.elapsed = self.duration;
        } else {
            self.elapsed = self.elapsed + dt;
        }
    }

    /// Whether the whole duration has passed.
    pub fn finished(&self) -> (r: bool)
        ensures
            r == self.is_finished(),
    {
        self.elapsed >= self.duration
    }

    /// Starts the countdown over.
    pub fn reset(&mut self)
        ensures
            *final(self) == (Timer { duration: old(self).duration, elapsed: 0 }),
    {
        self.elapsed = 0;
    }

    /// Share of the duration that has passed, in thousandths; a timer of no
    /// duration is complete.
    pub fn permille(&self) -> (r: u64)
        requires
            self.wf(),
        ensures
            self.duration == 0 ==> r == 1000,
            self.duration > 0 ==> r == self.elapsed * 1000 / self.duration as int,
            r <= 1000,
    {
        if self.duration == 0 {
            1000
        } else {
            let e = self.elapsed as u128;
            let d = self.duration as u128;
            assert((e * 1000) as int / d as int <= 1000) by (nonlinear_arith)
                requires
                    e <= d,
                    d > 0,
            ;
            (e * 1000 / d) as u64
        }
    }

    /// Share of the duration that is still to run, in thousandths.
    pub fn permille_left(&self) -> (r: u64)
        requires
            self.wf(),
        ensures
            self.duration == 0 ==> r == 0,
            self.duration > 0 ==> r == 1000 - self.elapsed * 1000 / self.duration as int,
    {
        1000 - self.permille()
    }
}

} // verus!
