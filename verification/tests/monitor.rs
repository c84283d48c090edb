use rustcooling::animation::AnimationMode;
use rustcooling::monitor::{clamp_reading, should_poll, should_reconnect, MonitorController};
use rustcooling::protocol::{build_frequency_frame, build_temperature_frame, build_usage_frame};

#[test]
fn readings_are_clamped() {
    assert_eq!(clamp_reading(-5, 999), 0);
    assert_eq!(clamp_reading(45, 999), 45);
    assert_eq!(clamp_reading(1200, 999), 999);
    assert_eq!(clamp_reading(i64::MAX, 100), 100);
}

#[test]
fn timing_decisions() {
    assert!(should_reconnect(false, 2000));
    assert!(!should_reconnect(false, 1999));
    assert!(!should_reconnect(true, 10_000));
    assert!(should_poll(1000, 1000));
    assert!(!should_poll(999, 1000));
}

#[test]
fn poll_sends_usage_then_frequency() {
    let mut m = MonitorController::new(AnimationMode::Immediate, 0);
    let frames = m.apply_readings(Some(45), Some(150), Some(3500), true);
    assert_eq!(frames, vec![build_usage_frame(100), build_frequency_frame(3500)]);
    assert_eq!((m.load_display, m.freq_display, m.temp_display), (100, 3500, 0));
    assert_eq!(m.animator.target_val, 45);
    assert_eq!(m.animate(true), Some(build_temperature_frame(45)));
    assert_eq!(m.temp_display, 45);
    assert_eq!(m.animate(true), None);
}

#[test]
fn nothing_is_sent_without_a_connection() {
    let mut m = MonitorController::new(AnimationMode::Immediate, 0);
    let frames = m.apply_readings(Some(1500), None, Some(20000), false);
    assert!(frames.is_empty());
    assert_eq!(m.freq_display, 9999);
    assert_eq!(m.load_display, 0);
    assert_eq!(m.animator.target_val, 999);
    assert_eq!(m.animate(false), None);
    assert_eq!(m.temp_display, 999);
}
