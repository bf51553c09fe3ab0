use blaulicht::limiter::{EdgeTrigger, RateLimiter};

#[test]
fn limiter_needs_strictly_more_than_interval() {
    let mut l = RateLimiter::new(0, 50);
    assert!(!l.ready(50));
    assert!(l.ready(51));
    assert_eq!(l.last, 51);
    assert!(!l.ready(100));
    assert!(l.ready(102));
}

#[test]
fn limiter_ignores_time_before_start() {
    let mut l = RateLimiter::new(1000, 10);
    assert!(!l.ready(5));
    assert_eq!(l.last, 1000);
}

#[test]
fn limiter_burst_publishes_are_spaced() {
    let mut l = RateLimiter::new(0, 50);
    let mut times = Vec::new();
    for now in 0..1000u64 {
        if l.ready(now) {
            times.push(now);
        }
    }
    assert!(!times.is_empty());
    assert!(times[0] > 50);
    for pair in times.windows(2) {
        assert!(pair[1] - pair[0] > 50);
    }
}

#[test]
fn edge_drops_equal_values_without_touching_limiter() {
    let mut g = EdgeTrigger::new(0, RateLimiter::new(0, 10));
    assert_eq!(g.offer(100, 0), None);
    assert_eq!(g.limiter.last, 0);
    assert_eq!(g.offer(100, 5), Some(5));
    assert_eq!(g.offer(105, 5), None);
    assert_eq!(g.offer(108, 6), None);
    assert_eq!(g.last_value, 5);
    assert_eq!(g.offer(211, 6), Some(6));
}

#[test]
fn edge_never_repeats_under_fast_ticks() {
    let mut g = EdgeTrigger::new(0, RateLimiter::new(0, 3));
    let mut out = Vec::new();
    for t in 0..500u64 {
        let v = ((t / 7) % 3) as u8;
        if let Some(x) = g.offer(t, v) {
            out.push(x);
        }
    }
    assert!(out.len() > 2);
    for pair in out.windows(2) {
        assert_ne!(pair[0], pair[1]);
    }
}
