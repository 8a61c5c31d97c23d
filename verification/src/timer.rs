//! Repeating countdowns, driven by the engine's timer.

use bevy::time::{Timer, TimerMode};
use std::time::Duration;
use vstd::prelude::*;

verus! {

/// Nanoseconds in one second.
pub const NANOS_PER_SECOND: u64 = 1_000_000_000;

/// Time left on the clock face of a repeating countdown of `duration`
/// nanoseconds once `total` nanoseconds have run: the remainder, and zero for
/// a countdown of no duration.
pub open spec fn wrapped(duration: int, total: int) -> int {
    if duration == 0 {
        0
    } else {
        total % duration
    }
}

/// A repeating countdown: the time it takes to complete and the time run
/// since it last completed, both in nanoseconds.
#[derive(Clone, Copy, PartialEq, Eq, Debug, Structural)]
pub struct Countdown {
    pub duration_ns: u64,
    pub elapsed_ns: u64,
}

impl Countdown {
    /// A tick of `delta_ns` nanoseconds completes the countdown.
    pub open spec fn completes(self, delta_ns: int) -> bool {
        self.elapsed_ns + delta_ns >= self.duration_ns
    }

    /// The countdown after a tick of `delta_ns` nanoseconds.
    pub open spec fn ticked(self, delta_ns: int) -> Countdown {
        Countdown {
            duration_ns: self.duration_ns,
            elapsed_ns: wrapped(self.duration_ns as int, self.elapsed_ns + delta_ns) as u64,
        }
    }

    /// A countdown that has not been started and completes at once: the state
    /// of an entity that has no use for one.
    pub open spec fn disabled_spec() -> Countdown {
        Countdown { duration_ns: 0, elapsed_ns: 0 }
    }

    /// A fresh countdown of whole seconds.
    pub open spec fn of_seconds(seconds: u32) -> Countdown {
        Countdown { duration_ns: (seconds as int * NANOS_PER_SECOND as int) as u64, elapsed_ns: 0 }
    }

    #[verifier::when_used_as_spec(disabled_spec)]
    pub fn disabled() -> (c: Countdown)
        ensures
            c == Countdown::disabled_spec(),
    {
        Countdown { duration_ns: 0, elapsed_ns: 0 }
    }

    /// A fresh countdown of `seconds` seconds.
    pub fn from_seconds(seconds: u32) -> (c: Countdown)
        ensures
            c == Countdown::of_seconds(seconds),
            c.duration_ns as int == seconds as int * 1_000_000_000,
            c.elapsed_ns == 0,
    {
        Countdown { duration_ns: seconds as u64 * NANOS_PER_SECOND, elapsed_ns: 0 }
    }

    /// Advances the countdown by `delta_ns` nanoseconds and tells whether it
    /// completed during this tick. On completion it starts over, keeping the
    /// time that ran past the end.
    pub fn tick(&mut self, delta_ns: u64) -> (finished: bool)
        ensures
            finished == old(self).completes(delta_ns as int),
            *final(self) == old(self).ticked(delta_ns as int),
    {
        let (elapsed, finished) = tick_repeating_timer(self.duration_ns, self.elapsed_ns, delta_ns);
        self.elapsed_ns = elapsed;
        finished
    }
}

/// One tick of a repeating `bevy::time::Timer` that has `duration_ns` to run
/// and has run `elapsed_ns`, by `delta_ns`. Returns the time on the timer
/// after the tick and `Timer::finished`. The contract is the engine's
/// arithmetic: the timer is finished when the time run reaches the duration,
/// and a finished repeating timer keeps the remainder.
#[verifier::external_body]
fn tick_repeating_timer(duration_ns: u64, elapsed_ns: u64, delta_ns: u64) -> (r: (u64, bool))
    ensures
        r.0 as int == wrapped(duration_ns as int, elapsed_ns + delta_ns),
        r.1 == (elapsed_ns + delta_ns >= duration_ns),
{
    let mut timer = Timer::new(Duration::from_nanos(duration_ns), TimerMode::Repeating);
    timer.set_elapsed(Duration::from_nanos(elapsed_ns));
    timer.tick(Duration::from_nanos(delta_ns));
    (timer.elapsed().as_nanos() as u64, timer.finished())
}

} // verus!
