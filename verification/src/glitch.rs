//! Clock glitch settings: how long the PLL is pushed out of range.

use vstd::prelude::*;

verus! {

/// Clock glitch: manipulates the PLL to cause timing violations.
pub struct ClockGlitch {
    glitch_duration_cycles: u32,
}

impl ClockGlitch {
    /// Glitch length, in core cycles.
    pub closed spec fn duration(&self) -> u32 {
        self.glitch_duration_cycles
    }

    pub fn new() -> (g: Self)
        ensures
            g.duration() == 100,
    {
        Self { glitch_duration_cycles: 100 }
    }

    pub fn set_duration(&mut self, cycles: u32)
        ensures
            final(self).duration() == cycles,
    {
        self.glitch_duration_cycles = cycles;
    }
}

} // verus!
