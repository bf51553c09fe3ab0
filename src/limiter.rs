//! Rate limiting and edge triggering of published signals.

use vstd::prelude::*;

verus! {

/// Lets a publish through only when more than `interval` time units have passed
/// since the last one that went through.
#[derive(Clone, Copy, Debug)]
pub struct RateLimiter {
    /// Time of the last publish that went through.
    pub last: u64,
    /// Minimum spacing between publishes.
    pub interval: u64,
}

impl RateLimiter {
    /// Whether a publish at `now` goes through.
    pub open spec fn fires(self, now: u64) -> bool {
        now - self.last > self.interval
    }

    /// The limiter after a publish attempt at `now`.
    pub open spec fn after(self, now: u64) -> RateLimiter {
        if self.fires(now) {
            RateLimiter { last: now, interval: self.interval }
        } else {
            self
        }
    }

    /// A limiter whose spacing counts from `start`.
    pub fn new(start: u64, interval: u64) -> (r: Self)
        ensures
            r.last == start,
            r.interval == interval,
    {
        RateLimiter { last: start, interval }
    }

    /// Attempts a publish at `now`: true when it goes through, in which case `now`
    /// becomes the time of the last publish.
    pub fn ready(&mut self, now: u64) -> (r: bool)
        ensures
            r == old(self).fires(now),
            *final(self) == old(self).after(now),
    {
        if now > self.last && now - self.last > self.interval {
            self.last = now;
            true
        } else {
            false
        }
    }
}

/// The times at which publishes go through when attempted at each of `nows` in turn.
pub open spec fn published_times(l: RateLimiter, nows: Seq<u64>) -> Seq<u64>
    decreases nows.len(),
{
    if nows.len() == 0 {
        Seq::empty()
    } else {
        let rest = published_times(l.after(nows[0]), nows.drop_first());
        if l.fires(nows[0]) {
            seq![nows[0]] + rest
        } else {
            rest
        }
    }
}

/// Law of the limiter: whatever the attempts, each publish that goes through comes
/// more than `interval` after the previous one (and after the limiter's start).
pub proof fn lemma_publish_spacing(l: RateLimiter, nows: Seq<u64>)
    ensures
        published_times(l, nows).len() > 0 ==> published_times(l, nows)[0] > l.last + l.interval,
        forall|i: int|
            0 <= i < published_times(l, nows).len() - 1 ==> #[trigger] published_times(l, nows)[i
                + 1] > published_times(l, nows)[i] + l.interval,
    decreases nows.len(),
{
    if nows.len() > 0 {
        let l2 = l.after(nows[0]);
        let rest = published_times(l2, nows.drop_first());
        lemma_publish_spacing(l2, nows.drop_first());
        let out = published_times(l, nows);
        if l.fires(nows[0]) {
            assert(out == seq![nows[0]] + rest);
            assert forall|i: int| 0 <= i < out.len() - 1 implies #[trigger] out[i + 1] > out[i]
                + l.interval by {
                if i > 0 {
                    assert(out[i] == rest[i - 1]);
                    assert(out[i + 1] == rest[i]);
                    assert(rest[(i - 1) + 1] > rest[i - 1] + l2.interval);
                } else {
                    assert(out[0] == nows[0]);
                    assert(out[1] == rest[0]);
                    assert(l2.last == nows[0] && l2.interval == l.interval);
                }
            }
        }
    }
}

/// Passes a value on only when it differs from the last value passed on and the
/// rate limiter lets it through; a value equal to the last one is dropped without
/// touching the limiter.
#[derive(Clone, Copy, Debug)]
pub struct EdgeTrigger {
    /// The last value passed on.
    pub last_value: u8,
    pub limiter: RateLimiter,
}

impl EdgeTrigger {
    /// What an offer of `v` at `now` passes on.
    pub open spec fn offered(self, now: u64, v: u8) -> Option<u8> {
        if v != self.last_value && self.limiter.fires(now) {
            Some(v)
        } else {
            None
        }
    }

    /// The trigger after an offer of `v` at `now`.
    pub open spec fn after(self, now: u64, v: u8) -> EdgeTrigger {
        if v != self.last_value && self.limiter.fires(now) {
            EdgeTrigger { last_value: v, limiter: self.limiter.after(now) }
        } else {
            self
        }
    }

    pub fn new(initial: u8, limiter: RateLimiter) -> (r: Self)
        ensures
            r.last_value == initial,
            r.limiter == limiter,
    {
        EdgeTrigger { last_value: initial, limiter }
    }

    /// Offers `v` at `now`; returns it when it is passed on.
    pub fn offer(&mut self, now: u64, v: u8) -> (r: Option<u8>)
        ensures
            r == old(self).offered(now, v),
            *final(self) == old(self).after(now, v),
    {
        if v == self.last_value {
            return None;
        }
        if self.limiter.ready(now) {
            self.last_value = v;
            Some(v)
        } else {
            None
        }
    }
}

/// The values passed on when each `(now, value)` of `offers` is offered in turn.
pub open spec fn edge_outputs(g: EdgeTrigger, offers: Seq<(u64, u8)>) -> Seq<u8>
    decreases offers.len(),
{
    if offers.len() == 0 {
        Seq::empty()
    } else {
        let (now, v) = offers[0];
        let rest = edge_outputs(g.after(now, v), offers.drop_first());
        match g.offered(now, v) {
            Some(x) => seq![x] + rest,
            None => rest,
        }
    }
}

/// Law of the trigger: whatever the offers and their timing, no value is passed on twice
/// in succession, and the first one passed on differs from the trigger's last value.
pub proof fn lemma_edge_never_repeats(g: EdgeTrigger, offers: Seq<(u64, u8)>)
    ensures
        edge_outputs(g, offers).len() > 0 ==> edge_outputs(g, offers)[0] != g.last_value,
        forall|i: int|
            0 <= i < edge_outputs(g, offers).len() - 1 ==> #[trigger] edge_outputs(g, offers)[i]
                != edge_outputs(g, offers)[i + 1],
    decreases offers.len(),
{
    if offers.len() > 0 {
        let (now, v) = offers[0];
        let g2 = g.after(now, v);
        let rest = edge_outputs(g2, offers.drop_first());
        lemma_edge_never_repeats(g2, offers.drop_first());
        let out = edge_outputs(g, offers);
        if let Some(x) = g.offered(now, v) {
            assert(out == seq![x] + rest);
            assert(g2.last_value == x);
            assert forall|i: int| 0 <= i < out.len() - 1 implies #[trigger] out[i] != out[i + 1] by {
                if i > 0 {
                    assert(out[i] == rest[i - 1]);
                    assert(out[i + 1] == rest[i]);
                    assert(rest[i - 1] != rest[(i - 1) + 1]);
                }
            }
        }
    }
}

} // verus!
