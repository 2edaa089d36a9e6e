//! The engine's housekeeping: how many worker threads it starts, and when
//! it shuts down.

use vstd::prelude::*;

verus! {

/// Ticks of the simulation in a second.
pub const TICK_RATE: u32 = 5;

/// The engine's two systems and whether each of them runs.
#[derive(Clone, Copy, Debug, PartialEq, Eq, Structural)]
pub struct Engine {
    pub game_running: bool,
    pub renderer_running: bool,
}

impl Engine {
    /// The number of worker threads on a machine with `cores` cores: two
    /// cores are left to the simulation and the render thread.
    pub fn initialize_global(cores: usize) -> (threads: usize)
        requires
            cores >= 2,
        ensures
            threads == cores - 2,
    {
        cores - 2
    }

    /// An engine whose systems both run.
    pub fn run() -> (engine: Self)
        ensures
            engine.game_running && engine.renderer_running,
    {
        Engine { game_running: true, renderer_running: true }
    }

    /// Takes note of whether the systems still run. If just one has died,
    /// the other is stopped too.
    pub fn poll_platform(&mut self, game_running: bool, renderer_running: bool)
        ensures
            final(self).game_running == (game_running && renderer_running),
            final(self).renderer_running == (game_running && renderer_running),
    {
        self.game_running = game_running;
        self.renderer_running = renderer_running;
        if !self.game_running || !self.renderer_running {
            self.stop();
        }
    }

    /// Stops both systems.
    pub fn stop(&mut self)
        ensures
            !final(self).game_running,
            !final(self).renderer_running,
    {
        self.game_running = false;
        self.renderer_running = false;
    }

    /// Whether the engine runs: both of its systems do. If just one has
    /// died, the other is stopped too.
    pub fn is_running(&mut self) -> (running: bool)
        ensures
            running == (old(self).game_running && old(self).renderer_running),
            final(self).game_running == running,
            final(self).renderer_running == running,
    {
        if !self.game_running || !self.renderer_running {
            self.stop();
            return false;
        }
        true
    }
}

} // verus!
