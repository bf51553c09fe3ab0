//! One iteration of the analysis loop: from a frame and the time to the messages to
//! send and the pause to take.

use crate::limiter::RateLimiter;
use crate::messages::{Signal, SystemMessage};
use crate::trackers::{
    beat_level, energy, frame_energy, peak, volume_level, ActivityDetector, ActivityState,
    BeatTracker, VolumeTracker,
};
use crate::window::seq_sum;
use vstd::prelude::*;

verus! {

/// Samples in the volume window.
pub const VOLUME_WINDOW: usize = 50;

/// Factor applied to the mean of the volume window.
pub const VOLUME_GAIN: u64 = 10;

/// Peaks in the beat window.
pub const BEAT_WINDOW: usize = 100;

/// Energies in the activity window.
pub const ACTIVITY_WINDOW: usize = 10000;

/// Minimum spacing of control signals of one kind, in microseconds.
pub const SIGNAL_INTERVAL_MICROS: u64 = 50000;

/// Minimum spacing of telemetry, in microseconds.
pub const SYSTEM_INTERVAL_MICROS: u64 = 1000000;

/// Pause after each iteration while dormant, in microseconds.
pub const DORMANT_PAUSE_MICROS: u64 = 500000;

/// The tunable sizes and intervals of the analysis loop.
#[derive(Clone, Copy, Debug)]
pub struct AnalyzerConfig {
    pub volume_window: usize,
    pub volume_gain: u64,
    pub beat_window: usize,
    pub activity_window: usize,
    pub signal_interval: u64,
    pub system_interval: u64,
    pub dormant_pause: u64,
}

impl AnalyzerConfig {
    pub open spec fn valid(&self) -> bool {
        self.volume_window >= 1 && self.beat_window >= 1 && self.activity_window >= 1
    }

    /// The sizes and intervals the loop is normally run with.
    pub fn standard() -> (r: Self)
        ensures
            r.valid(),
            r.volume_window == VOLUME_WINDOW,
            r.volume_gain == VOLUME_GAIN,
            r.beat_window == BEAT_WINDOW,
            r.activity_window == ACTIVITY_WINDOW,
            r.signal_interval == SIGNAL_INTERVAL_MICROS,
            r.system_interval == SYSTEM_INTERVAL_MICROS,
            r.dormant_pause == DORMANT_PAUSE_MICROS,
    {
        AnalyzerConfig {
            volume_window: VOLUME_WINDOW,
            volume_gain: VOLUME_GAIN,
            beat_window: BEAT_WINDOW,
            activity_window: ACTIVITY_WINDOW,
            signal_interval: SIGNAL_INTERVAL_MICROS,
            system_interval: SYSTEM_INTERVAL_MICROS,
            dormant_pause: DORMANT_PAUSE_MICROS,
        }
    }
}

/// What one iteration hands back to the loop that runs it.
pub struct TickOutput {
    /// Control signals to send, in order.
    pub signals: Vec<Signal>,
    /// Telemetry to send, if any.
    pub system: Option<SystemMessage>,
    /// The new activity state, when it changed.
    pub transition: Option<ActivityState>,
    /// How long to pause before the next iteration, in microseconds.
    pub pause: u64,
}

/// `Some(x)` as a one-element sequence, `None` as the empty one.
pub open spec fn opt_seq<T>(o: Option<T>) -> Seq<T> {
    match o {
        Some(x) => seq![x],
        None => Seq::empty(),
    }
}

/// The state of the analysis loop.
pub struct Analyzer {
    pub volume: VolumeTracker,
    pub activity: ActivityDetector,
    pub beat: BeatTracker,
    pub system: RateLimiter,
    /// When the previous iteration began.
    pub loop_begin: u64,
    pub dormant_pause: u64,
}

impl Analyzer {
    pub open spec fn wf(&self) -> bool {
        self.volume.wf() && self.activity.wf() && self.beat.wf()
    }

    /// A loop state whose clocks start at `start`.
    pub fn new(config: AnalyzerConfig, start: u64) -> (r: Self)
        requires
            config.valid(),
        ensures
            r.wf(),
            r.volume.window@ == Seq::<usize>::empty(),
            r.volume.window.cap() == config.volume_window,
            r.volume.gain == config.volume_gain,
            r.volume.limiter == (RateLimiter { last: start, interval: config.signal_interval }),
            r.activity.window@ == Seq::<usize>::empty(),
            r.activity.window.cap() == config.activity_window,
            r.activity.state == ActivityState::Active,
            r.beat.window@ == Seq::<usize>::empty(),
            r.beat.window.cap() == config.beat_window,
            r.beat.edge.last_value == 0,
            r.beat.edge.limiter == (RateLimiter { last: start, interval: config.signal_interval }),
            r.system == (RateLimiter { last: start, interval: config.system_interval }),
            r.loop_begin == start,
            r.dormant_pause == config.dormant_pause,
    {
        Analyzer {
            volume: VolumeTracker::new(
                config.volume_window,
                config.volume_gain,
                start,
                config.signal_interval,
            ),
            activity: ActivityDetector::new(config.activity_window),
            beat: BeatTracker::new(config.beat_window, start, config.signal_interval),
            system: RateLimiter::new(start, config.system_interval),
            loop_begin: start,
            dormant_pause: config.dormant_pause,
        }
    }

    /// One iteration at time `now` over the frame `bins`: telemetry of the loop speed,
    /// the volume signal, the activity state and its pause, then the beat signal.
    pub fn tick(&mut self, now: u64, bins: &Vec<usize>) -> (r: TickOutput)
        requires
            old(self).wf(),
        ensures
            final(self).wf(),
            final(self).loop_begin == now,
            final(self).dormant_pause == old(self).dormant_pause,
            final(self).system == old(self).system.after(now),
            r.system == (if old(self).system.fires(now) {
                Some(
                    SystemMessage::LoopSpeed(
                        (if now >= old(self).loop_begin {
                            now - old(self).loop_begin
                        } else {
                            0
                        }) as u64,
                    ),
                )
            } else {
                None
            }),
            final(self).volume.limiter == old(self).volume.limiter.after(now),
            final(self).volume.window.cap() == old(self).volume.window.cap(),
            final(self).volume.gain == old(self).volume.gain,
            final(self).volume.window@ == crate::window::pushed(
                old(self).volume.window.cap(),
                old(self).volume.window@,
                peak(bins@) as usize,
            ),
            final(self).activity.window.cap() == old(self).activity.window.cap(),
            final(self).activity.window@ == crate::window::pushed(
                old(self).activity.window.cap(),
                old(self).activity.window@,
                energy(bins@) as usize,
            ),
            final(self).activity.state == (if seq_sum(final(self).activity.window@) == 0 {
                ActivityState::Dormant
            } else {
                ActivityState::Active
            }),
            r.transition == (if final(self).activity.state != old(self).activity.state {
                Some(final(self).activity.state)
            } else {
                None
            }),
            r.pause == (if final(self).activity.state == ActivityState::Dormant {
                old(self).dormant_pause
            } else {
                0
            }),
            final(self).beat.window.cap() == old(self).beat.window.cap(),
            final(self).beat.window@ == crate::window::pushed(
                old(self).beat.window.cap(),
                old(self).beat.window@,
                peak(bins@) as usize,
            ),
            final(self).beat.edge == old(self).beat.edge.after(
                now,
                beat_level(final(self).beat.window@, peak(bins@)) as u8,
            ),
            r.signals@ == opt_seq(
                if old(self).volume.limiter.fires(now) {
                    Some(
                        Signal::Volume(
                            volume_level(final(self).volume.window@, old(self).volume.gain as nat)
                                as u8,
                        ),
                    )
                } else {
                    None
                },
            ) + opt_seq(
                match old(self).beat.edge.offered(
                    now,
                    beat_level(final(self).beat.window@, peak(bins@)) as u8,
                ) {
                    Some(v) => Some(Signal::Beat(v)),
                    None => None,
                },
            ),
    {
        let speed: u64 = if now >= self.loop_begin {
            now - self.loop_begin
        } else {
            0
        };
        self.loop_begin = now;
        let system = if self.system.ready(now) {
            Some(SystemMessage::LoopSpeed(speed))
        } else {
            None
        };
        let mut signals: Vec<Signal> = Vec::new();
        let vol = self.volume.tick(now, bins);
        if let Some(s) = vol {
            signals.push(s);
        }
        let e = frame_energy(bins);
        let transition = self.activity.tick(e);
        let pause = if self.activity.is_dormant() {
            self.dormant_pause
        } else {
            0
        };
        let b = self.beat.tick(now, bins);
        if let Some(s) = b {
            signals.push(s);
        }
        proof {
            assert(signals@ =~= opt_seq(vol) + opt_seq(b));
        }
        TickOutput { signals, system, transition, pause }
    }
}

} // verus!
