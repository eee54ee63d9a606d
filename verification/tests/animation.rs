use armored_core_simulator::animation::{Animation, AnimationTimer, IDLE_FRAMES, IDLE_FRAME_NANOS};
use armored_core_simulator::config::ConfigError;
use armored_core_simulator::player::{steer, Steering};

const NANOS_PER_SECOND: f64 = 1_000_000_000.0;

fn nanos(seconds: f64) -> u64 {
    (seconds * NANOS_PER_SECOND).round() as u64
}

fn seconds(nanos: u64) -> f64 {
    nanos as f64 / NANOS_PER_SECOND
}

#[test]
fn timer_rejects_a_loop_without_frames() {
    assert_eq!(AnimationTimer::new(0, 50).unwrap_err(), ConfigError::InvalidFrameCount);
    assert_eq!(AnimationTimer::new(0, 0).unwrap_err(), ConfigError::InvalidFrameCount);
}

#[test]
fn timer_rejects_a_frame_without_time() {
    assert_eq!(AnimationTimer::new(11, 0).unwrap_err(), ConfigError::InvalidFrameDuration);
}

#[test]
fn timer_starts_at_the_first_frame() {
    let timer = AnimationTimer::new(11, 50).unwrap();
    assert_eq!(timer.frame(), 0);
    assert_eq!(timer.residual(), 0);
    assert_eq!(timer.frame_count(), 11);
    assert_eq!(timer.frame_duration(), 50);
}

#[test]
fn idle_timer_has_eleven_frames_of_a_twentieth_of_a_second() {
    assert_eq!(IDLE_FRAMES, 11);
    assert_eq!(IDLE_FRAME_NANOS, nanos(1.0 / 20.0));
    let timer = AnimationTimer::idle();
    assert_eq!(timer.frame(), 0);
    assert_eq!(timer.residual(), 0);
    assert_eq!(timer.frame_count(), 11);
    assert_eq!(timer.frame_duration(), 50_000_000);
}

#[test]
fn delta_of_two_and_a_bit_frames_advances_two_frames() {
    let mut timer = AnimationTimer::new(11, nanos(0.05)).unwrap();
    assert_eq!(timer.advance(nanos(0.12)), 2);
    assert_eq!(timer.frame(), 2);
    assert_eq!(timer.residual(), 20_000_000);
    assert!((seconds(timer.residual()) - 0.02).abs() < 1e-9);
}

#[test]
fn large_delta_skips_frames_and_wraps() {
    let mut timer = AnimationTimer::new(11, nanos(0.05)).unwrap();
    assert_eq!(timer.advance(15 * nanos(0.05)), 15 % 11);
    assert_eq!(timer.frame(), 4);
    assert_eq!(timer.residual(), 0);
}

#[test]
fn a_whole_frame_of_time_advances_one_frame() {
    let mut timer = AnimationTimer::new(3, 10).unwrap();
    assert_eq!(timer.advance(10), 1);
    assert_eq!(timer.residual(), 0);
}

#[test]
fn residual_is_carried_into_the_next_step() {
    let mut timer = AnimationTimer::new(11, 50).unwrap();
    assert_eq!(timer.advance(30), 0);
    assert_eq!(timer.residual(), 30);
    assert_eq!(timer.advance(30), 1);
    assert_eq!(timer.residual(), 10);
    assert_eq!(timer.advance(39), 1);
    assert_eq!(timer.residual(), 49);
    assert_eq!(timer.advance(1), 2);
    assert_eq!(timer.residual(), 0);
}

#[test]
fn no_time_changes_nothing() {
    let mut timer = AnimationTimer::new(4, 7).unwrap();
    timer.advance(10);
    assert_eq!(timer.advance(0), 1);
    assert_eq!(timer.residual(), 3);
}

#[test]
fn frame_wraps_after_the_last() {
    let mut timer = AnimationTimer::new(3, 10).unwrap();
    assert_eq!(timer.advance(20), 2);
    assert_eq!(timer.advance(10), 0);
    assert_eq!(timer.advance(10 * 3 * 1000 + 10), 1);
}

#[test]
fn frame_and_residual_stay_in_range() {
    let mut timer = AnimationTimer::new(11, 50).unwrap();
    let mut delta: u64 = 1;
    for _ in 0..200 {
        let frame = timer.advance(delta);
        assert!(frame < 11);
        assert_eq!(frame, timer.frame());
        assert!(timer.residual() < 50);
        delta = delta.wrapping_mul(6364136223846793005).wrapping_add(1442695040888963407);
    }
}

#[test]
fn steps_add_up() {
    let mut stepwise = AnimationTimer::new(11, 50).unwrap();
    let mut at_once = AnimationTimer::new(11, 50).unwrap();
    let deltas = [0u64, 1, 49, 50, 51, 120, 549, 550, 7777];
    for delta in deltas {
        stepwise.advance(delta);
    }
    at_once.advance(deltas.iter().sum());
    assert_eq!(stepwise.frame(), at_once.frame());
    assert_eq!(stepwise.residual(), at_once.residual());
}

#[test]
fn the_longest_step_does_not_overflow() {
    let mut timer = AnimationTimer::new(usize::MAX, 1).unwrap();
    assert_eq!(timer.advance(u64::MAX), (u64::MAX as u128 % usize::MAX as u128) as usize);
    assert_eq!(timer.residual(), 0);

    let mut timer = AnimationTimer::new(7, u64::MAX).unwrap();
    assert_eq!(timer.advance(u64::MAX - 1), 0);
    assert_eq!(timer.residual(), u64::MAX - 1);
    assert_eq!(timer.advance(u64::MAX), 1);
    assert_eq!(timer.residual(), u64::MAX - 1);
    assert_eq!(timer.advance(1), 2);
    assert_eq!(timer.residual(), 0);
}

#[test]
fn animations_are_told_apart() {
    assert_eq!(Animation::MaskIdle, Animation::MaskIdle);
    assert_ne!(Animation::MaskIdle, Animation::MaskRun);
    let copy = Animation::GuyFall;
    assert_eq!(format!("{:?}", copy), "GuyFall");
}

#[test]
fn left_wins_over_right() {
    assert_eq!(steer(true, false), Steering::Left);
    assert_eq!(steer(true, true), Steering::Left);
    assert_eq!(steer(false, true), Steering::Right);
    assert_eq!(steer(false, false), Steering::Idle);
}

#[test]
fn steering_has_a_sign() {
    assert_eq!(Steering::Left.sign(), -1);
    assert_eq!(Steering::Right.sign(), 1);
    assert_eq!(Steering::Idle.sign(), 0);
}
