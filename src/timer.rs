use vstd::prelude::*;

verus! {

/// A countdown measured in ticks. It finishes when an advance leaves nothing
/// remaining; a countdown that was never advanced has not finished, whatever its length.
#[derive(PartialEq, Eq, Structural, Clone, Copy, Debug)]
pub struct Countdown {
    pub duration: u64,
    pub remaining: u64,
    pub done: bool,
}

/// The countdown after advancing by `n` ticks; zero ticks only evaluates it.
pub open spec fn advanced(c: Countdown, n: u64) -> Countdown {
    let r = if c.remaining >= n { (c.remaining - n) as u64 } else { 0 };
    Countdown { remaining: r, done: r == 0, ..c }
}

/// The countdown after one tick.
pub open spec fn ticked(c: Countdown) -> Countdown {
    advanced(c, 1)
}

impl Countdown {
    /// A countdown of `duration` ticks, just started and not finished.
    pub fn new(duration: u64) -> (r: Countdown)
        ensures
            r.duration == duration,
            r.remaining == duration,
            !r.done,
    {
        Countdown { duration, remaining: duration, done: false }
    }

    pub open spec fn spec_finished(&self) -> bool {
        self.done
    }

    #[verifier::when_used_as_spec(spec_finished)]
    pub fn finished(&self) -> (r: bool)
        ensures
            r == self.done,
    {
        self.done
    }

    /// Advances the countdown by `n` ticks and records whether it has finished.
    pub fn advance(&mut self, n: u64)
        ensures
            *final(self) == advanced(*old(self), n),
    {
        if self.remaining >= n {
            self.remaining = self.remaining - n;
        } else {
            self.remaining = 0;
        }
        self.done = self.remaining == 0;
    }

    /// Advances the countdown by one tick; a finished countdown stays finished.
    pub fn tick(&mut self)
        ensures
            *final(self) == ticked(*old(self)),
    {
        self.advance(1);
    }

    /// Starts the countdown over.
    pub fn reset(&mut self)
        ensures
            final(self).duration == old(self).duration,
            final(self).remaining == old(self).duration,
            !final(self).done,
    {
        self.remaining = self.duration;
        self.done = false;
    }
}

} // verus!
