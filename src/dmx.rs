//! The DMX512 universe: channel values, how signals change them, and the steps of
//! one transmission on the wire.

use crate::messages::Signal;
use vstd::prelude::*;

verus! {

/// Slots in a universe: the start code and 512 channels.
pub const UNIVERSE_SIZE: usize = 513;

/// Line speed of DMX512, in bits per second.
pub const DMX_BAUD: u32 = 250000;

/// Data bits per slot.
pub const DMX_DATA_BITS: u8 = 8;

/// Stop bits per slot.
pub const DMX_STOP_BITS: u8 = 2;

/// How long the break is held, in microseconds (the protocol asks for at least 88).
pub const BREAK_MICROS: u64 = 100;

/// How long the mark after the break is held, in microseconds (at least 8).
pub const MARK_AFTER_BREAK_MICROS: u64 = 100;

/// Beat intensities above this light the beat group, unless a universe is built
/// with another threshold.
pub const BEAT_THRESHOLD: u8 = 1;

/// One step of a transmission on the serial line.
#[derive(Clone, Debug)]
pub enum WireStep {
    /// Assert the break condition.
    SetBreak,
    /// Clear the break condition.
    ClearBreak,
    /// Hold the line as it is for this many microseconds.
    Wait(u64),
    /// Write these bytes, all of them.
    Write(Vec<u8>),
    /// Flush the line.
    Flush,
}

/// The channels after `s` is applied: a beat above `threshold` sets channels 1 to 4
/// to full, any other beat turns channel 1 off; other signals change nothing.
pub open spec fn apply_spec(ch: Seq<u8>, s: Signal, threshold: u8) -> Seq<u8> {
    match s {
        Signal::Beat(v) => if v > threshold {
            ch.update(1, 255).update(2, 255).update(3, 255).update(4, 255)
        } else {
            ch.update(1, 0)
        },
        _ => ch,
    }
}

/// The channels after each of `signals` is applied in turn.
pub open spec fn apply_all(ch: Seq<u8>, signals: Seq<Signal>, threshold: u8) -> Seq<u8>
    decreases signals.len(),
{
    if signals.len() == 0 {
        ch
    } else {
        apply_spec(apply_all(ch, signals.drop_last(), threshold), signals.last(), threshold)
    }
}

/// A valid universe: 513 slots, the first (the start code) zero.
pub open spec fn valid_universe(ch: Seq<u8>) -> bool {
    ch.len() == UNIVERSE_SIZE && ch[0] == 0
}

/// Law of the universe: whatever signals are applied, it keeps 513 slots and a zero
/// start code, so every frame written is 513 bytes that begin with 0.
pub proof fn lemma_signals_keep_universe_valid(ch: Seq<u8>, signals: Seq<Signal>, threshold: u8)
    requires
        valid_universe(ch),
    ensures
        valid_universe(apply_all(ch, signals, threshold)),
    decreases signals.len(),
{
    if signals.len() > 0 {
        lemma_signals_keep_universe_valid(ch, signals.drop_last(), threshold);
    }
}

/// The channel values of one universe.
pub struct DmxUniverse {
    channels: Vec<u8>,
    beat_threshold: u8,
}

impl View for DmxUniverse {
    type V = Seq<u8>;

    closed spec fn view(&self) -> Seq<u8> {
        self.channels@
    }
}

impl DmxUniverse {
    /// Beat intensities above this light the beat group.
    pub closed spec fn threshold(&self) -> u8 {
        self.beat_threshold
    }

    pub fn beat_threshold(&self) -> (r: u8)
        ensures
            r == self.threshold(),
    {
        self.beat_threshold
    }

    /// A universe with every channel at zero and the standard beat threshold.
    pub fn new() -> (r: Self)
        ensures
            valid_universe(r@),
            forall|i: int| 0 <= i < r@.len() ==> #[trigger] r@[i] == 0,
            r.threshold() == BEAT_THRESHOLD,
    {
        DmxUniverse::with_beat_threshold(BEAT_THRESHOLD)
    }

    /// A universe with every channel at zero whose beat group lights above
    /// `beat_threshold`.
    pub fn with_beat_threshold(beat_threshold: u8) -> (r: Self)
        ensures
            valid_universe(r@),
            forall|i: int| 0 <= i < r@.len() ==> #[trigger] r@[i] == 0,
            r.threshold() == beat_threshold,
    {
        let mut channels: Vec<u8> = Vec::new();
        let mut i: usize = 0;
        while i < UNIVERSE_SIZE
            invariant
                i <= UNIVERSE_SIZE,
                channels@.len() == i,
                forall|j: int| 0 <= j < i ==> #[trigger] channels@[j] == 0,
            decreases UNIVERSE_SIZE - i,
        {
            channels.push(0);
            i = i + 1;
        }
        DmxUniverse { channels, beat_threshold }
    }

    /// The value of slot `i`.
    pub fn channel(&self, i: usize) -> (r: u8)
        requires
            i < self@.len(),
        ensures
            r == self@[i as int],
    {
        self.channels[i]
    }

    /// Applies a signal to the channels.
    pub fn apply(&mut self, s: Signal)
        requires
            valid_universe(old(self)@),
        ensures
            final(self)@ == apply_spec(old(self)@, s, old(self).threshold()),
            final(self).threshold() == old(self).threshold(),
            valid_universe(final(self)@),
    {
        match s {
            Signal::Beat(v) => {
                if v > self.beat_threshold {
                    self.channels.set(1, 255);
                    self.channels.set(2, 255);
                    self.channels.set(3, 255);
                    self.channels.set(4, 255);
                } else {
                    self.channels.set(1, 0);
                }
            },
            _ => {},
        }
    }

    /// The bytes of one frame: all 513 slots, start code first.
    pub fn frame(&self) -> (r: Vec<u8>)
        requires
            valid_universe(self@),
        ensures
            r@ == self@,
            r@.len() == UNIVERSE_SIZE,
            r@[0] == 0,
    {
        self.channels.clone()
    }

    /// The steps of one transmission: break, mark after break, the whole frame, flush.
    pub fn wire_cycle(&self) -> (r: Vec<WireStep>)
        requires
            valid_universe(self@),
        ensures
            r@.len() == 6,
            r@[0] is SetBreak,
            r@[1] == WireStep::Wait(BREAK_MICROS),
            r@[2] is ClearBreak,
            r@[3] == WireStep::Wait(MARK_AFTER_BREAK_MICROS),
            r@[4] matches WireStep::Write(bytes) && bytes@ == self@,
            r@[5] is Flush,
            BREAK_MICROS >= 88 && MARK_AFTER_BREAK_MICROS >= 8,
    {
        let mut steps: Vec<WireStep> = Vec::new();
        steps.push(WireStep::SetBreak);
        steps.push(WireStep::Wait(BREAK_MICROS));
        steps.push(WireStep::ClearBreak);
        steps.push(WireStep::Wait(MARK_AFTER_BREAK_MICROS));
        steps.push(WireStep::Write(self.frame()));
        steps.push(WireStep::Flush);
        steps
    }
}

} // verus!
