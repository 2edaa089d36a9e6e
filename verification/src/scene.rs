//! The simulation thread's pace: when the next tick is due, and how it
//! waits while the render thread is behind.

use vstd::prelude::*;

verus! {

/// The simulation's world.
pub struct Scene {}

/// The time between two ticks, in nanoseconds.
#[derive(Clone, Copy, Debug, PartialEq, Eq)]
pub struct DeltaTime(pub u128);

impl DeltaTime {
    /// The time in whole milliseconds.
    pub fn millis(&self) -> (millis: u128)
        ensures
            millis == self.0 / 1_000_000,
    {
        self.0 / 1_000_000
    }
}

/// The number of a tick.
#[derive(Clone, Copy, Debug, PartialEq, Eq)]
pub struct Tick(pub u64);

/// A filter that lets every component layout through.
pub struct FilterAll {}

impl FilterAll {
    /// Whether a layout passes: every one does.
    pub fn matches_layout(&self) -> (matches: bool)
        ensures
            matches,
    {
        true
    }
}

/// Milliseconds between two ticks at `tick_rate` ticks per second, rounded
/// up to whole milliseconds.
pub open spec fn tick_interval(tick_rate: u32) -> int {
    (1000 + tick_rate - 1) / (tick_rate as int)
}

/// How the simulation waits for the render thread.
#[derive(Clone, Copy, Debug, PartialEq, Eq, Structural)]
pub enum WaitStep {
    /// Look again at once.
    Spin,
    /// Let other threads run, then look again.
    Yield,
    /// Sleep for a millisecond, then look again.
    Sleep,
}

/// After this many looks the simulation lets other threads run between two
/// looks.
pub const YIELD_AFTER: u32 = 128;

/// After this many looks the simulation sleeps between two looks.
pub const SLEEP_AFTER: u32 = 1024;

/// Nanoseconds in the sleep between two looks.
pub const SLEEP_NANOS: u32 = 1_000_000;

impl Scene {
    /// Whether the next tick is due: `delta` has reached the tick interval.
    pub fn tick_due(delta: DeltaTime, tick_rate: u32) -> (due: bool)
        requires
            0 < tick_rate,
            1000 + tick_rate <= u32::MAX,
        ensures
            due == (delta.0 / 1_000_000 >= tick_interval(tick_rate)),
    {
        let interval: u32 = (1000 + tick_rate - 1) / tick_rate;
        !(delta.millis() < interval as u128)
    }

    /// The tick that follows `tick`. The count goes round at its end.
    pub fn next_tick(tick: Tick) -> (next: Tick)
        ensures
            next.0 == if tick.0 == u64::MAX {
                0
            } else {
                tick.0 + 1
            },
    {
        Tick(tick.0.wrapping_add(1))
    }

    /// How to wait before the next look at the render thread, having looked
    /// `spin_counter` times already: a short while of spinning, then
    /// yielding, then sleeping. The wait between two looks is never longer
    /// than one sleep.
    pub fn wait_step(spin_counter: u32) -> (step: WaitStep)
        ensures
            step == if spin_counter > SLEEP_AFTER {
                WaitStep::Sleep
            } else if spin_counter > YIELD_AFTER {
                WaitStep::Yield
            } else {
                WaitStep::Spin
            },
    {
        if spin_counter > SLEEP_AFTER {
            WaitStep::Sleep
        } else if spin_counter > YIELD_AFTER {
            WaitStep::Yield
        } else {
            WaitStep::Spin
        }
    }

    /// The count of looks after one more; it stays at its highest value
    /// once it has reached it.
    pub fn next_spin(spin_counter: u32) -> (next: u32)
        ensures
            next == if spin_counter == u32::MAX {
                u32::MAX
            } else {
                (spin_counter + 1) as u32
            },
    {
        spin_counter.saturating_add(1)
    }
}

} // verus!
