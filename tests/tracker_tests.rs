use blaulicht::messages::Signal;
use blaulicht::trackers::{
    frame_energy, frame_peak, ActivityDetector, ActivityState, BeatTracker, VolumeTracker,
};

#[test]
fn peak_of_frames() {
    assert_eq!(frame_peak(&vec![]), 0);
    assert_eq!(frame_peak(&vec![3]), 3);
    assert_eq!(frame_peak(&vec![1, 9, 4, 2, 7]), 9);
    assert_eq!(frame_peak(&vec![1, 2, 3, 8]), 8);
}

#[test]
fn energy_of_frames() {
    assert_eq!(frame_energy(&vec![]), 0);
    assert_eq!(frame_energy(&vec![1, 2, 3]), 6);
    assert_eq!(frame_energy(&vec![usize::MAX, 5]), usize::MAX);
}

#[test]
fn volume_level_rounds_mean_times_gain() {
    let mut v = VolumeTracker::new(10, 10, 0, 0);
    assert_eq!(v.tick(1, &vec![3, 1]), Some(Signal::Volume(30)));
    assert_eq!(v.tick(2, &vec![4]), Some(Signal::Volume(35)));
    assert_eq!(v.level(), 35);
}

#[test]
fn volume_level_rounds_half_up() {
    let mut v = VolumeTracker::new(10, 1, 0, 0);
    v.tick(1, &vec![1]);
    v.tick(2, &vec![2]);
    assert_eq!(v.tick(3, &vec![2]), Some(Signal::Volume(2)));
}

#[test]
fn volume_level_capped_at_hundred() {
    let mut v = VolumeTracker::new(5, 10, 0, 0);
    assert_eq!(v.tick(1, &vec![20]), Some(Signal::Volume(100)));
    let mut w = VolumeTracker::new(5, u64::MAX, 0, 0);
    assert_eq!(w.tick(1, &vec![usize::MAX]), Some(Signal::Volume(100)));
}

#[test]
fn volume_of_empty_window_is_zero() {
    let v = VolumeTracker::new(5, 10, 0, 0);
    assert_eq!(v.level(), 0);
}

#[test]
fn volume_publishes_spaced_by_interval() {
    let mut v = VolumeTracker::new(10, 10, 0, 50);
    let mut times = Vec::new();
    for now in 0..400u64 {
        if v.tick(now, &vec![5]).is_some() {
            times.push(now);
        }
    }
    assert_eq!(times, vec![51, 102, 153, 204, 255, 306, 357]);
}

#[test]
fn activity_goes_dormant_once_and_wakes_once() {
    let mut a = ActivityDetector::new(3);
    assert_eq!(a.tick(0), Some(ActivityState::Dormant));
    assert_eq!(a.tick(0), None);
    assert!(a.is_dormant());
    assert_eq!(a.tick(4), Some(ActivityState::Active));
    assert_eq!(a.tick(0), None);
    assert_eq!(a.tick(0), None);
    assert!(!a.is_dormant());
    assert_eq!(a.tick(0), Some(ActivityState::Dormant));
    assert_eq!(a.tick(0), None);
}

#[test]
fn beat_publishes_changes_only() {
    let mut b = BeatTracker::new(100, 0, 0);
    assert_eq!(b.tick(1, &vec![0, 0]), None);
    assert_eq!(b.tick(2, &vec![10, 0]), Some(Signal::Beat(255)));
    assert_eq!(b.tick(3, &vec![20, 5]), None);
    assert_eq!(b.tick(4, &vec![10, 1]), Some(Signal::Beat(127)));
}

#[test]
fn beat_ramp_up_then_down() {
    let mut b = BeatTracker::new(100, 0, 50_000);
    let mut out: Vec<u8> = Vec::new();
    for i in 0..150u64 {
        let v = if i < 75 { i * 100 / 74 } else { (149 - i) * 100 / 74 };
        let frame = vec![v as usize; 8];
        if let Some(Signal::Beat(x)) = b.tick((i + 1) * 60_000, &frame) {
            out.push(x);
        }
    }
    assert!(out.len() >= 3);
    for pair in out.windows(2) {
        assert_ne!(pair[0], pair[1]);
    }
    let top = out.iter().position(|&x| x == *out.iter().max().unwrap()).unwrap();
    for i in 0..top {
        assert!(out[i] <= out[i + 1]);
    }
    for i in top..out.len() - 1 {
        assert!(out[i] >= out[i + 1]);
    }
    assert_eq!(out[top], 255);
}
