//! The perceptual clock: local, smooth and monotonic.
use vstd::prelude::*;

verus! {

/// The largest step the perceptual clock takes in one tick, in microseconds
/// (100 ms); longer gaps, such as after a system sleep, are clamped to it.
pub const MAX_PERCEPTUAL_STEP_US: u64 = 100_000;

/// Perceptual clock (τp): advances by the real time elapsed between ticks,
/// at most [`MAX_PERCEPTUAL_STEP_US`] per tick, and never goes back.
/// Times are in microseconds since the clock started.
#[derive(Debug, Clone, Copy, PartialEq, Eq)]
pub struct PerceptualClock {
    value_us: u64,
}

/// The step a tick takes for `elapsed_us` of real time.
pub open spec fn perceptual_step(elapsed_us: u64) -> int {
    if elapsed_us <= MAX_PERCEPTUAL_STEP_US {
        elapsed_us as int
    } else {
        MAX_PERCEPTUAL_STEP_US as int
    }
}

impl PerceptualClock {
    /// The clock's current time.
    pub closed spec fn spec_now(&self) -> u64 {
        self.value_us
    }

    /// A clock at zero.
    pub fn new() -> (c: Self)
        ensures
            c.spec_now() == 0,
    {
        PerceptualClock { value_us: 0 }
    }

    /// Advances the clock by `elapsed_us` of real time, clamped to
    /// [`MAX_PERCEPTUAL_STEP_US`], saturating at the largest time, and
    /// returns the new time. The clock never goes back and never jumps by
    /// more than the clamp.
    pub fn tick(&mut self, elapsed_us: u64) -> (t: u64)
        ensures
            t == final(self).spec_now(),
            final(self).spec_now() == if old(self).spec_now() + perceptual_step(elapsed_us) <= u64::MAX {
                old(self).spec_now() + perceptual_step(elapsed_us)
            } else {
                u64::MAX as int
            },
            old(self).spec_now() <= final(self).spec_now() <= old(self).spec_now() + MAX_PERCEPTUAL_STEP_US,
    {
        let step = if elapsed_us <= MAX_PERCEPTUAL_STEP_US {
            elapsed_us
        } else {
            MAX_PERCEPTUAL_STEP_US
        };
        self.value_us = self.value_us.saturating_add(step);
        self.value_us
    }

    /// The current time, without advancing.
    pub fn now(&self) -> (t: u64)
        ensures
            t == self.spec_now(),
    {
        self.value_us
    }
}

impl Default for PerceptualClock {
    fn default() -> (c: Self)
        ensures
            c.spec_now() == 0,
    {
        Self::new()
    }
}

} // verus!
