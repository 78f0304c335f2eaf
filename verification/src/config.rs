//! Frame-pacing configuration for the driver loop.

use vstd::prelude::*;

verus! {

/// How fast the host should run the machine: how long one frame lasts and
/// how many decode cycles fit into it, together with the program image.
pub struct ChipConfig {
    /// Length of one frame, in microseconds.
    pub target_frame_micros: u64,
    /// Decode cycles to run per frame: `clock_speed / frame_rate`, floored.
    pub cycles_per_frame: u64,
    /// The flat binary program image, loaded at 0x200.
    pub instructions: Vec<u8>,
}

impl ChipConfig {
    /// Pace `clock_speed` instructions per second against `target_frame_rate`
    /// frames per second (both in Hz, e.g. 700 and 60).
    pub fn new(clock_speed: u64, target_frame_rate: u64, instructions: Vec<u8>) -> (r: ChipConfig)
        requires
            target_frame_rate > 0,
        ensures
            r.target_frame_micros == 1_000_000u64 / target_frame_rate,
            r.cycles_per_frame == clock_speed / target_frame_rate,
            r.instructions@ == instructions@,
    {
        ChipConfig {
            target_frame_micros: 1_000_000u64 / target_frame_rate,
            cycles_per_frame: clock_speed / target_frame_rate,
            instructions,
        }
    }
}

} // verus!
