use vstd::prelude::*;

verus! {

/// The count of a phase timer that players can lengthen or shorten while it runs.
pub struct Countdown {
    pub seconds: i32,
}

impl Countdown {
    pub fn new() -> (res: Countdown)
        ensures
            res.seconds == 0,
    {
        Countdown { seconds: 0 }
    }

    pub fn set(&mut self, seconds: i32)
        ensures
            final(self).seconds == seconds,
    {
        self.seconds = seconds;
    }

    pub fn increase(&mut self, seconds: i32)
        requires
            i32::MIN <= old(self).seconds + seconds <= i32::MAX,
        ensures
            final(self).seconds == old(self).seconds + seconds,
    {
        self.seconds = self.seconds + seconds;
    }

    pub fn decrease(&mut self, seconds: i32)
        requires
            i32::MIN <= old(self).seconds - seconds <= i32::MAX,
        ensures
            final(self).seconds == old(self).seconds - seconds,
    {
        self.seconds = self.seconds - seconds;
    }

    /// One second passes: while time is left, it goes down by one and the
    /// timer runs on (`true`); otherwise the timer is done (`false`).
    pub fn tick(&mut self) -> (running: bool)
        ensures
            running == (old(self).seconds > 0),
            final(self).seconds == if running { old(self).seconds - 1 } else { old(self).seconds as int },
    {
        if self.seconds > 0 {
            self.seconds = self.seconds - 1;
            true
        } else {
            false
        }
    }
}

} // verus!
