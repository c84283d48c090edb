use rustcooling::animation::{AnimationMode, DisplayAnimator};

#[test]
fn test_mode_none() {
    let mut anim = DisplayAnimator::new(AnimationMode::Immediate, 500);
    assert_eq!(anim.last_sent, 0);

    anim.set_target(50);
    let tick_result = anim.tick();
    assert_eq!(tick_result, Some(50));
    assert_eq!(anim.last_sent, 50);

    // Subsequent ticks without change return None
    assert_eq!(anim.tick(), None);

    // Another target
    anim.set_target(100);
    assert_eq!(anim.tick(), Some(100));
    assert_eq!(anim.tick(), None);
}

#[test]
fn test_no_freeze_or_overflow() {
    // Zero duration
    let mut anim = DisplayAnimator::new(AnimationMode::Smooth, 0);
    anim.set_target(u16::MAX);
    assert_eq!(anim.tick(), Some(u16::MAX));
    assert_eq!(anim.tick(), None);

    // Roller with 0 duration
    let mut roller = DisplayAnimator::new(AnimationMode::Roller, 0);
    roller.set_target(u16::MAX);
    assert_eq!(roller.tick(), Some(u16::MAX));
    assert_eq!(roller.tick(), None);

    // Roller stepping to same target
    roller.set_target(u16::MAX);
    assert_eq!(roller.tick(), None);
}

const MS: u128 = 1_000_000;

#[test]
fn smooth_curve_exact_points() {
    let mut anim = DisplayAnimator::new(AnimationMode::Smooth, 100);
    anim.set_target(100);
    assert_eq!(anim.tick_at(0), None);
    // a quarter of the way in time: 4 * (1/4)^3 = 1/16 of the way
    assert_eq!(anim.tick_at(25 * MS), Some(6));
    assert_eq!(anim.current_val, 409_600);
    // half way in time is half way in value
    assert_eq!(anim.tick_at(50 * MS), Some(50));
    assert_eq!(anim.current_val, 3_276_800);
    // three quarters: 1 - 4 * (1/4)^3 = 15/16
    assert_eq!(anim.tick_at(75 * MS), Some(94));
    assert_eq!(anim.tick_at(100 * MS), Some(100));
    assert_eq!(anim.tick_at(1000 * MS), None);
    assert_eq!(anim.last_sent, 100);
}

#[test]
fn smooth_values_rise_monotonically_and_settle() {
    let mut anim = DisplayAnimator::new(AnimationMode::Smooth, 300);
    anim.set_target(80);
    let mut last = 0u16;
    let mut t = 0u128;
    while t <= 400 * MS {
        if let Some(v) = anim.tick_at(t) {
            assert!(v >= last);
            last = v;
        }
        t += 7 * MS;
    }
    assert_eq!(last, 80);
    assert_eq!(anim.last_sent, 80);
}

#[test]
fn smooth_falls_from_the_current_position() {
    let mut anim = DisplayAnimator::new(AnimationMode::Smooth, 100);
    anim.set_target(100);
    assert_eq!(anim.tick_at(200 * MS), Some(100));
    anim.set_target(0);
    assert_eq!(anim.start_val, 100 * 65536);
    assert_eq!(anim.tick_at(50 * MS), Some(50));
    assert_eq!(anim.tick_at(100 * MS), Some(0));
}

#[test]
fn roller_counts_whole_steps() {
    let mut anim = DisplayAnimator::new(AnimationMode::Roller, 100);
    anim.set_target(10);
    assert_eq!(anim.tick_at(5 * MS), None);
    assert_eq!(anim.tick_at(10 * MS), Some(1));
    assert_eq!(anim.tick_at(35 * MS), Some(3));
    assert_eq!(anim.current_val, 3 * 65536);
    assert_eq!(anim.tick_at(100 * MS), Some(10));
    assert_eq!(anim.tick_at(500 * MS), None);

    anim.set_target(5);
    assert_eq!(anim.tick_at(0), None);
    assert_eq!(anim.tick_at(20 * MS), Some(9));
    assert_eq!(anim.tick_at(60 * MS), Some(7));
    assert_eq!(anim.tick_at(100 * MS), Some(5));
}

#[test]
fn set_target_to_the_same_value_keeps_the_transition() {
    let mut anim = DisplayAnimator::new(AnimationMode::Roller, 100);
    anim.set_target(10);
    anim.tick_at(50 * MS);
    let start = anim.start_val;
    anim.set_target(10);
    assert_eq!(anim.start_val, start);
    assert_eq!(anim.current_val, 5 * 65536);
}

#[test]
fn immediate_mode_ignores_time() {
    let mut anim = DisplayAnimator::new(AnimationMode::Immediate, 1000);
    anim.set_target(42);
    assert_eq!(anim.tick_at(0), Some(42));
    assert_eq!(anim.tick_at(1), None);
}
