//! The per-tick statistics over spectrum frames: volume, activity and beat.
//!
//! A frame is given as the volume of each bin, as an integer.

use crate::limiter::{EdgeTrigger, RateLimiter};
use crate::mapping::{affine_map, beat_index, MAX_BEAT_VOLUME};
use crate::messages::Signal;
use crate::window::{
    lemma_min_max_bound, lemma_sum_bounds, lemma_sum_push, lemma_sum_zero_iff_all_zero, pushed,
    seq_max, seq_min, seq_sum, RollingWindow,
};
use vstd::prelude::*;

verus! {

/// The loudest bin of a frame; 0 for a frame without bins. Taking the largest bin of
/// each adjacent pair and then the largest of those gives this same value.
pub open spec fn peak(bins: Seq<usize>) -> int {
    seq_max(bins)
}

/// The total energy of a frame, saturated at `usize::MAX`.
pub open spec fn energy(bins: Seq<usize>) -> int {
    if seq_sum(bins) > usize::MAX {
        usize::MAX as int
    } else {
        seq_sum(bins)
    }
}

/// The published volume level of a window: its mean times `gain`, rounded half up and
/// capped at 100; 0 for an empty window.
pub open spec fn volume_level(w: Seq<usize>, gain: nat) -> int {
    if w.len() == 0 {
        0
    } else {
        let v = (2 * seq_sum(w) * gain + w.len()) / (2 * w.len() as int);
        if v > 100 {
            100
        } else {
            v
        }
    }
}

/// The beat intensity of `curr` against the range of window `w`.
pub open spec fn beat_level(w: Seq<usize>, curr: int) -> int {
    affine_map(curr, seq_min(w), seq_max(w), 0, MAX_BEAT_VOLUME as int)
}

/// Loudest bin of a frame, found as the largest of the per-pair maxima.
pub fn frame_peak(bins: &Vec<usize>) -> (r: usize)
    ensures
        r == peak(bins@),
{
    let n = bins.len();
    let mut best: usize = 0;
    let mut i: usize = 0;
    while i < n
        invariant
            n == bins@.len(),
            i <= n,
            best == seq_max(bins@.subrange(0, i as int)),
        decreases n - i,
    {
        let ghost s0 = bins@.subrange(0, i as int);
        let ghost s1 = bins@.subrange(0, i as int + 1);
        let mut pair = bins[i];
        proof {
            assert(s1.drop_last() =~= s0);
            lemma_min_max_bound(s0);
        }
        if pair > best {
            best = pair;
        }
        assert(best == seq_max(s1));
        if i + 1 < n {
            let ghost s2 = bins@.subrange(0, i as int + 2);
            proof {
                assert(s2.drop_last() =~= s1);
                lemma_min_max_bound(s1);
            }
            if bins[i + 1] > pair {
                pair = bins[i + 1];
            }
            if pair > best {
                best = pair;
            }
            assert(best == seq_max(s2));
            i = i + 2;
        } else {
            i = i + 1;
        }
    }
    assert(bins@.subrange(0, n as int) =~= bins@);
    best
}

/// Total energy of a frame, saturated at `usize::MAX`.
pub fn frame_energy(bins: &Vec<usize>) -> (r: usize)
    ensures
        r == energy(bins@),
{
    let n = bins.len();
    let mut acc: usize = 0;
    let mut i: usize = 0;
    while i < n
        invariant
            n == bins@.len(),
            i <= n,
            acc == energy(bins@.subrange(0, i as int)),
        decreases n - i,
    {
        let x = bins[i];
        proof {
            let s = bins@.subrange(0, i as int + 1);
            assert(bins@.subrange(0, i as int).push(x) =~= s);
            lemma_sum_push(bins@.subrange(0, i as int), x);
            lemma_sum_bounds(bins@.subrange(0, i as int));
        }
        if acc > usize::MAX - x {
            acc = usize::MAX;
        } else {
            acc = acc + x;
        }
        i = i + 1;
    }
    assert(bins@.subrange(0, n as int) =~= bins@);
    acc
}

/// Tracks the loudness of recent frames and publishes it as a level signal.
pub struct VolumeTracker {
    pub window: RollingWindow,
    pub limiter: RateLimiter,
    /// Factor applied to the window's mean.
    pub gain: u64,
}

impl VolumeTracker {
    pub open spec fn wf(&self) -> bool {
        self.window.wf()
    }

    /// A tracker over the last `capacity` frames, publishing at most once per
    /// `interval` from `start` on.
    pub fn new(capacity: usize, gain: u64, start: u64, interval: u64) -> (r: Self)
        requires
            capacity >= 1,
        ensures
            r.wf(),
            r.window@ == Seq::<usize>::empty(),
            r.window.cap() == capacity,
            r.gain == gain,
            r.limiter == (RateLimiter { last: start, interval }),
    {
        VolumeTracker {
            window: RollingWindow::new(capacity),
            limiter: RateLimiter::new(start, interval),
            gain,
        }
    }

    /// The current level of the window.
    pub fn level(&self) -> (r: u8)
        requires
            self.wf(),
        ensures
            r == volume_level(self.window@, self.gain as nat),
    {
        let n = self.window.len();
        if n == 0 {
            return 0;
        }
        let s = self.window.sum();
        let two_g: u128 = 2 * (self.gain as u128);
        let two_n: u128 = 2 * (n as u128);
        let ghost a: int = 2 * seq_sum(self.window@) * self.gain + n;
        proof {
            assert(2 * seq_sum(self.window@) * self.gain == s * two_g) by (nonlinear_arith)
                requires
                    s == seq_sum(self.window@),
                    two_g == 2 * self.gain,
            ;
            assert(200 * two_n < u128::MAX) by {
                assert(n <= u64::MAX);
            }
        }
        let v: u128 = match s.checked_mul(two_g) {
            None => {
                proof {
                    assert(a / (two_n as int) >= 100) by (nonlinear_arith)
                        requires
                            a >= 200 * two_n,
                            two_n > 0,
                    ;
                }
                100
            },
            Some(p) => match p.checked_add(n as u128) {
                None => {
                    proof {
                        assert(a / (two_n as int) >= 100) by (nonlinear_arith)
                            requires
                                a >= 200 * two_n,
                                two_n > 0,
                        ;
                    }
                    100
                },
                Some(q) => q / two_n,
            },
        };
        if v < 100 {
            v as u8
        } else {
            100
        }
    }

    /// One tick: the loudest bin of `bins` enters the window, then the level is
    /// published if the limiter lets it through at `now`.
    pub fn tick(&mut self, now: u64, bins: &Vec<usize>) -> (r: Option<Signal>)
        requires
            old(self).wf(),
        ensures
            final(self).wf(),
            final(self).gain == old(self).gain,
            final(self).window.cap() == old(self).window.cap(),
            final(self).window@ == pushed(old(self).window.cap(), old(self).window@, peak(bins@) as usize),
            final(self).limiter == old(self).limiter.after(now),
            r == (if old(self).limiter.fires(now) {
                Some(Signal::Volume(volume_level(final(self).window@, old(self).gain as nat) as u8))
            } else {
                None
            }),
    {
        let sample = frame_peak(bins);
        self.window.push(sample);
        if self.limiter.ready(now) {
            Some(Signal::Volume(self.level()))
        } else {
            None
        }
    }
}

/// Whether recent frames carry any energy at all.
#[derive(Clone, Copy, Debug, PartialEq, Eq, Structural)]
pub enum ActivityState {
    Active,
    Dormant,
}

/// Watches the energy of a long run of frames and switches between active and dormant.
pub struct ActivityDetector {
    pub window: RollingWindow,
    pub state: ActivityState,
}

impl ActivityDetector {
    pub open spec fn wf(&self) -> bool {
        self.window.wf()
    }

    /// A detector over the last `capacity` frames. It starts active: it goes dormant
    /// once the frames it has seen carry no energy.
    pub fn new(capacity: usize) -> (r: Self)
        requires
            capacity >= 1,
        ensures
            r.wf(),
            r.window@ == Seq::<usize>::empty(),
            r.window.cap() == capacity,
            r.state == ActivityState::Active,
    {
        ActivityDetector { window: RollingWindow::new(capacity), state: ActivityState::Active }
    }

    pub fn is_dormant(&self) -> (r: bool)
        ensures
            r == (self.state == ActivityState::Dormant),
    {
        match self.state {
            ActivityState::Dormant => true,
            ActivityState::Active => false,
        }
    }

    /// One tick with the frame's total `energy`. The state becomes dormant exactly when
    /// every sample in the window is zero; the new state is returned when it differs
    /// from the old one, and only then.
    pub fn tick(&mut self, energy: usize) -> (r: Option<ActivityState>)
        requires
            old(self).wf(),
        ensures
            final(self).wf(),
            final(self).window.cap() == old(self).window.cap(),
            final(self).window@ == pushed(old(self).window.cap(), old(self).window@, energy),
            final(self).state == (if seq_sum(final(self).window@) == 0 {
                ActivityState::Dormant
            } else {
                ActivityState::Active
            }),
            (final(self).state == ActivityState::Dormant) <==> (forall|i: int|
                0 <= i < final(self).window@.len() ==> #[trigger] final(self).window@[i] == 0),
            r == (if final(self).state != old(self).state {
                Some(final(self).state)
            } else {
                None
            }),
    {
        self.window.push(energy);
        proof {
            lemma_sum_zero_iff_all_zero(self.window@);
        }
        let next = if self.window.sum() == 0 {
            ActivityState::Dormant
        } else {
            ActivityState::Active
        };
        let changed = next != self.state;
        self.state = next;
        if changed {
            Some(next)
        } else {
            None
        }
    }
}

/// Maps each frame's peak into the range of recent peaks and publishes the result
/// when it changes.
pub struct BeatTracker {
    pub window: RollingWindow,
    pub edge: EdgeTrigger,
}

impl BeatTracker {
    pub open spec fn wf(&self) -> bool {
        self.window.wf()
    }

    /// A tracker over the last `capacity` peaks, publishing at most once per
    /// `interval` from `start` on.
    pub fn new(capacity: usize, start: u64, interval: u64) -> (r: Self)
        requires
            capacity >= 1,
        ensures
            r.wf(),
            r.window@ == Seq::<usize>::empty(),
            r.window.cap() == capacity,
            r.edge == (EdgeTrigger { last_value: 0, limiter: RateLimiter { last: start, interval } }),
    {
        BeatTracker {
            window: RollingWindow::new(capacity),
            edge: EdgeTrigger::new(0, RateLimiter::new(start, interval)),
        }
    }

    /// One tick: the frame's peak enters the window and is mapped onto
    /// `[0, MAX_BEAT_VOLUME]` by the window's minimum and maximum; the result is
    /// offered to the trigger at `now`.
    pub fn tick(&mut self, now: u64, bins: &Vec<usize>) -> (r: Option<Signal>)
        requires
            old(self).wf(),
        ensures
            final(self).wf(),
            final(self).window.cap() == old(self).window.cap(),
            final(self).window@ == pushed(old(self).window.cap(), old(self).window@, peak(bins@) as usize),
            0 <= beat_level(final(self).window@, peak(bins@)) <= MAX_BEAT_VOLUME,
            final(self).edge == old(self).edge.after(now, beat_level(final(self).window@, peak(bins@)) as u8),
            r == (match old(self).edge.offered(now, beat_level(final(self).window@, peak(bins@)) as u8) {
                Some(v) => Some(Signal::Beat(v)),
                None => None,
            }),
    {
        let curr = frame_peak(bins);
        self.window.push(curr);
        proof {
            let w = self.window@;
            let before = old(self).window@;
            if before.push(curr).len() > old(self).window.cap() {
                assert(w[w.len() - 1] == before.push(curr)[before.len() as int]);
            }
            assert(w.len() > 0 && w[w.len() - 1] == curr);
            lemma_min_max_bound(w);
        }
        let lo = self.window.min();
        let hi = self.window.max();
        let index = beat_index(curr, lo, hi);
        match self.edge.offer(now, index) {
            Some(v) => Some(Signal::Beat(v)),
            None => None,
        }
    }
}

} // verus!
