//! The spotlight overlay's on/off state. Each start opens a new generation;
//! a frame loop keeps running only while its own generation is current.
use vstd::prelude::*;

verus! {

/// The generation that follows `g`; the counter wraps around.
pub open spec fn next_generation(g: u64) -> u64 {
    if g == u64::MAX {
        0
    } else {
        (g + 1) as u64
    }
}

pub fn advance(g: u64) -> (r: u64)
    ensures
        r == next_generation(g),
{
    if g == u64::MAX {
        0
    } else {
        g + 1
    }
}

/// Whether the spotlight is on, and the generation of its frame loop.
pub struct SpotlightState {
    pub enabled: bool,
    pub generation: u64,
}

impl SpotlightState {
    /// The spotlight starts switched off, in generation 0.
    pub fn new() -> (r: Self)
        ensures
            !r.enabled,
            r.generation == 0,
    {
        SpotlightState { enabled: false, generation: 0 }
    }

    /// Whether the spotlight is on.
    pub fn status(&self) -> (r: bool)
        ensures
            r == self.enabled,
    {
        self.enabled
    }

    /// Switches the spotlight off and ends the running frame loop.
    pub fn stop(&mut self)
        ensures
            !final(self).enabled,
            final(self).generation == next_generation(old(self).generation),
    {
        self.enabled = false;
        self.generation = advance(self.generation);
    }

    /// Switches the spotlight on and returns the generation of the new frame
    /// loop.
    pub fn start(&mut self) -> (r: u64)
        ensures
            final(self).enabled,
            final(self).generation == next_generation(old(self).generation),
            r == final(self).generation,
    {
        self.generation = advance(self.generation);
        self.enabled = true;
        self.generation
    }

    /// Whether the frame loop of generation `generation` may go on.
    pub fn is_running(&self, generation: u64) -> (r: bool)
        ensures
            r == (self.enabled && self.generation == generation),
    {
        self.enabled && self.generation == generation
    }
}

impl Default for SpotlightState {
    fn default() -> (r: Self)
        ensures
            !r.enabled,
            r.generation == 0,
    {
        SpotlightState::new()
    }
}

/// A frame loop started by `start` stops being current after a `stop` or
/// after the next `start`.
pub proof fn lemma_stop_ends_loop(before: SpotlightState, after: SpotlightState, generation: u64)
    requires
        before.enabled,
        before.generation == generation,
        !after.enabled,
        after.generation == next_generation(before.generation),
    ensures
        !(after.enabled && after.generation == generation),
{
}

/// After `start`, an earlier loop's generation differs from the new one.
pub proof fn lemma_restart_ends_loop(before: SpotlightState, after: SpotlightState)
    requires
        after.generation == next_generation(before.generation),
    ensures
        after.generation != before.generation,
{
}

} // verus!
