use blaulicht::messages::{Signal, SystemMessage};
use blaulicht::pipeline::{Analyzer, AnalyzerConfig, ACTIVITY_WINDOW, DORMANT_PAUSE_MICROS};
use blaulicht::trackers::ActivityState;

#[test]
fn silent_input_goes_dormant_once_and_pauses() {
    let mut a = Analyzer::new(AnalyzerConfig::standard(), 0);
    let frame = vec![0usize; 16];
    let mut transitions = Vec::new();
    let mut now = 0u64;
    for _ in 0..(ACTIVITY_WINDOW + 50) {
        now += 1_000;
        let out = a.tick(now, &frame);
        if let Some(t) = out.transition {
            transitions.push(t);
        }
        assert_eq!(out.pause, DORMANT_PAUSE_MICROS);
        now += out.pause;
    }
    assert_eq!(transitions, vec![ActivityState::Dormant]);
}

#[test]
fn loud_input_stays_active_and_publishes() {
    let mut a = Analyzer::new(AnalyzerConfig::standard(), 0);
    let out = a.tick(60_000, &vec![4, 8]);
    assert_eq!(out.transition, None);
    assert_eq!(out.pause, 0);
    assert_eq!(out.signals, vec![Signal::Volume(80)]);
    assert_eq!(out.system, None);
    let out = a.tick(1_200_000, &vec![0, 0]);
    assert_eq!(out.system, Some(SystemMessage::LoopSpeed(1_140_000)));
    assert_eq!(out.signals, vec![Signal::Volume(40)]);
}

#[test]
fn beat_follows_volume_in_one_tick() {
    let mut a = Analyzer::new(AnalyzerConfig::standard(), 0);
    a.tick(60_000, &vec![0]);
    let out = a.tick(120_000, &vec![10]);
    assert_eq!(out.signals, vec![Signal::Volume(50), Signal::Beat(255)]);
}
