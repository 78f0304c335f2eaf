//! Audio-intent signalling for the single-tone channel.
//!
//! The execution engine never touches an audio device. Once per frame the
//! timer tick inspects the sound timer and reports an `AudioIntent`; the
//! host forwards `StartTone` / `StopTone` to whatever sink it owns.

use vstd::prelude::*;

verus! {

/// Whether the tone is currently sounding, as far as the engine knows.
#[derive(Clone, Copy, PartialEq, Eq, Structural, Debug)]
pub enum BeepingState {
    Stopped,
    Beeping,
}

/// What the host should do with the tone after a timer tick.
#[derive(Clone, Copy, PartialEq, Eq, Structural, Debug)]
pub enum AudioIntent {
    /// No edge: leave the sink as it is.
    Silent,
    /// The sound timer became nonzero while the tone was stopped.
    StartTone,
    /// The sound timer reached zero while the tone was sounding.
    StopTone,
}

} // verus!
