use blaulicht::dmx::{DmxUniverse, WireStep, BREAK_MICROS, MARK_AFTER_BREAK_MICROS, UNIVERSE_SIZE};
use blaulicht::messages::Signal;

#[test]
fn new_universe_is_dark() {
    let u = DmxUniverse::new();
    let f = u.frame();
    assert_eq!(f.len(), UNIVERSE_SIZE);
    assert!(f.iter().all(|&b| b == 0));
}

#[test]
fn strong_beat_lights_group() {
    let mut u = DmxUniverse::new();
    u.apply(Signal::Beat(2));
    let f = u.frame();
    assert_eq!(&f[0..6], &[0, 255, 255, 255, 255, 0]);
}

#[test]
fn weak_beat_turns_first_channel_off() {
    let mut u = DmxUniverse::new();
    u.apply(Signal::Beat(200));
    u.apply(Signal::Beat(1));
    let f = u.frame();
    assert_eq!(&f[0..6], &[0, 0, 255, 255, 255, 0]);
    assert_eq!(u.channel(2), 255);
}

#[test]
fn other_signals_leave_channels() {
    let mut u = DmxUniverse::new();
    u.apply(Signal::Beat(9));
    u.apply(Signal::Volume(70));
    u.apply(Signal::Bass(3));
    assert_eq!(&u.frame()[0..5], &[0, 255, 255, 255, 255]);
}

#[test]
fn every_frame_is_513_bytes_starting_with_zero() {
    let mut u = DmxUniverse::new();
    for v in 0..=255u8 {
        u.apply(Signal::Beat(v));
        let f = u.frame();
        assert_eq!(f.len(), 513);
        assert_eq!(f[0], 0);
    }
}

#[test]
fn wire_cycle_order_and_timing() {
    let mut u = DmxUniverse::new();
    u.apply(Signal::Beat(3));
    let steps = u.wire_cycle();
    assert_eq!(steps.len(), 6);
    assert!(matches!(steps[0], WireStep::SetBreak));
    assert!(matches!(steps[1], WireStep::Wait(d) if d == BREAK_MICROS && d >= 88));
    assert!(matches!(steps[2], WireStep::ClearBreak));
    assert!(matches!(steps[3], WireStep::Wait(d) if d == MARK_AFTER_BREAK_MICROS && d >= 8));
    match &steps[4] {
        WireStep::Write(bytes) => {
            assert_eq!(bytes.len(), 513);
            assert_eq!(bytes[0], 0);
            assert_eq!(bytes[1], 255);
        }
        _ => panic!("expected the frame"),
    }
    assert!(matches!(steps[5], WireStep::Flush));
}

#[test]
fn custom_beat_threshold() {
    let mut u = DmxUniverse::with_beat_threshold(100);
    u.apply(Signal::Beat(50));
    assert_eq!(u.channel(1), 0);
    u.apply(Signal::Beat(101));
    assert_eq!(&u.frame()[0..5], &[0, 255, 255, 255, 255]);
    assert_eq!(u.beat_threshold(), 100);
}
