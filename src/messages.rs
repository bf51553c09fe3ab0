//! Messages passed between the analysis loop, its consumers and its supervisor.

use vstd::prelude::*;

verus! {

/// A control signal derived from the audio.
#[derive(Clone, Copy, Debug, PartialEq, Eq, Structural)]
pub enum Signal {
    Beat(u8),
    Bass(u8),
    Volume(u8),
}

/// An instruction to a running analysis thread.
#[derive(Clone, Copy, Debug, PartialEq, Eq, Structural)]
pub enum Command {
    KillThread,
}

/// Telemetry of the analysis loop.
#[derive(Clone, Copy, Debug, PartialEq, Eq, Structural)]
pub enum SystemMessage {
    /// Time between the starts of two loop iterations, in microseconds.
    LoopSpeed(u64),
}

/// How a display draws the audio.
#[derive(Clone, Copy, Debug, PartialEq, Eq, Structural)]
pub enum Visualisation {
    Spectrum,
    Scope,
}

} // verus!
