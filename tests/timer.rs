use anvilkit::duration::Duration;
use anvilkit::time::Time;
use anvilkit::timer::{Timer, TimerState};

#[test]
fn test_timer_creation() {
    let timer = Timer::from_millis(2000);
    assert_eq!(timer.duration(), Duration::from_secs(2));
    assert!(!timer.is_repeating());
    assert!(timer.is_running());
    assert!(!timer.finished());
}

#[test]
fn test_repeating_timer_creation() {
    let timer = Timer::repeating_from_millis(1500);
    assert_eq!(timer.duration(), Duration::from_millis(1500));
    assert!(timer.is_repeating());
    assert!(timer.is_running());
}

#[test]
fn test_timer_tick() {
    let mut timer = Timer::from_millis(1000);

    timer.tick(Duration::from_millis(500));
    assert_eq!(timer.elapsed(), Duration::from_millis(500));
    assert!(!timer.finished());
    assert!(!timer.just_finished());

    timer.tick(Duration::from_millis(500));
    assert!(timer.finished());
    assert!(timer.just_finished());
    assert_eq!(timer.elapsed(), timer.duration());

    timer.tick(Duration::from_millis(1));
    assert!(timer.finished());
    assert!(!timer.just_finished());
}

#[test]
fn test_repeating_timer() {
    let mut timer = Timer::repeating_from_millis(1000);

    timer.tick(Duration::from_secs(1));
    assert!(timer.finished());
    assert!(timer.just_finished());

    timer.tick(Duration::from_millis(1));
    assert!(!timer.finished());
    assert!(!timer.just_finished());
    assert!(timer.elapsed().less_than(&Duration::from_millis(100)));
}

#[test]
fn test_timer_overflow() {
    let mut timer = Timer::repeating_from_millis(1000);
    timer.tick(Duration::from_millis(2500));
    assert!(timer.just_finished());
    assert_eq!(timer.elapsed(), Duration::from_millis(500));
}

#[test]
fn test_timer_pause_resume() {
    let mut timer = Timer::from_millis(1000);

    timer.tick(Duration::from_millis(300));
    assert_eq!(timer.elapsed(), Duration::from_millis(300));

    timer.pause();
    assert!(timer.is_paused());

    timer.tick(Duration::from_millis(500));
    assert_eq!(timer.elapsed(), Duration::from_millis(300));

    timer.resume();
    assert!(timer.is_running());

    timer.tick(Duration::from_millis(700));
    assert!(timer.finished());
}

#[test]
fn test_timer_reset() {
    let mut timer = Timer::from_millis(1000);
    timer.tick(Duration::from_millis(800));
    assert_eq!(timer.elapsed(), Duration::from_millis(800));

    timer.reset();
    assert!(timer.elapsed().is_zero());
    assert!(!timer.finished());
    assert!(timer.is_running());
}

#[test]
fn test_timer_set_duration() {
    let mut timer = Timer::from_millis(2000);
    timer.tick(Duration::from_secs(1));

    timer.set_duration(Duration::from_secs(3));
    assert_eq!(timer.elapsed(), Duration::from_secs(1));
    assert_eq!(timer.remaining(), Duration::from_secs(2));

    timer.set_duration(Duration::from_millis(500));
    assert!(timer.finished());
    assert!(timer.just_finished());
}

#[test]
fn test_timer_remaining() {
    let mut timer = Timer::from_millis(5000);
    timer.tick(Duration::from_secs(2));
    assert_eq!(timer.remaining(), Duration::from_secs(3));
}

#[test]
fn test_timer_finish() {
    let mut timer = Timer::from_millis(10000);
    timer.finish();
    assert!(timer.finished());
    assert!(timer.just_finished());
    assert!(timer.remaining().is_zero());
}

#[test]
fn test_timer_state_transitions() {
    let mut timer = Timer::from_millis(1000);
    assert_eq!(timer.state(), TimerState::Running);

    timer.pause();
    assert_eq!(timer.state(), TimerState::Paused);

    timer.resume();
    assert_eq!(timer.state(), TimerState::Running);

    timer.tick(Duration::from_secs(1));
    assert_eq!(timer.state(), TimerState::Finished);
}

#[test]
fn test_zero_duration_timer() {
    let mut timer = Timer::new(Duration::zero());
    assert!(timer.remaining().is_zero());

    timer.tick(Duration::from_millis(1));
    assert!(timer.finished());
    assert!(timer.just_finished());
}

#[test]
fn zero_duration_repeating_timer_does_not_hang() {
    let mut timer = Timer::repeating(Duration::zero());
    timer.tick(Duration::from_millis(5));
    assert!(timer.just_finished());
    assert!(timer.elapsed().is_zero());
}

#[test]
fn test_timer_set_repeating() {
    let mut timer = Timer::from_millis(1000);
    timer.tick(Duration::from_secs(1));
    assert!(timer.finished());

    timer.set_repeating(true);
    timer.tick(Duration::from_millis(1));

    assert!(!timer.finished());
    assert!(timer.elapsed().less_than(&Duration::from_millis(100)));
}

#[test]
fn set_repeating_false_finishes_a_full_timer() {
    let mut timer = Timer::repeating_from_millis(1000);
    timer.finish();
    assert_eq!(timer.state(), TimerState::Running);
    timer.set_repeating(false);
    assert_eq!(timer.state(), TimerState::Finished);
}

#[test]
fn duration_arithmetic() {
    assert_eq!(Duration::from_secs(2).as_nanos(), 2_000_000_000);
    assert_eq!(Duration::from_millis(1500).as_millis(), 1500);
    assert_eq!(Duration::from_nanos(2_500_000).as_millis(), 2);
    assert_eq!(
        Duration::from_millis(300).saturating_sub(Duration::from_millis(500)),
        Duration::zero()
    );
    assert_eq!(
        Duration::from_nanos(u128::MAX).saturating_add(Duration::from_nanos(1)),
        Duration::from_nanos(u128::MAX)
    );
    assert_eq!(
        Duration::from_millis(2500).wrap_into(Duration::from_secs(1)),
        Duration::from_millis(500)
    );
}

#[test]
fn test_time_creation() {
    let time = Time::new();
    assert_eq!(time.frame_count(), 0);
    assert!(time.delta().is_zero());
    assert!(time.is_first_frame());
}

#[test]
fn test_time_update() {
    let mut time = Time::new();
    time.update();
    assert_eq!(time.frame_count(), 1);
    assert!(time.delta().is_zero());
    assert!(!time.is_first_frame());
    time.update();
    assert_eq!(time.frame_count(), 2);
}

#[test]
fn test_time_reset() {
    let mut time = Time::new();
    time.update();
    time.update();

    assert_eq!(time.frame_count(), 2);

    time.reset();
    assert_eq!(time.frame_count(), 0);
    assert!(time.is_first_frame());
}

#[test]
fn time_at_given_instants() {
    let start = std::time::Instant::now();
    let mut time = Time::starting_at(start);
    time.update_at(start + std::time::Duration::from_millis(20));
    assert!(time.delta().is_zero());
    assert_eq!(time.elapsed(), Duration::from_millis(20));
    time.update_at(start + std::time::Duration::from_millis(50));
    assert_eq!(time.delta(), Duration::from_millis(30));
    assert_eq!(time.delta_millis(), 30);
    assert_eq!(time.elapsed(), Duration::from_millis(50));
    assert_eq!(time.startup_time(), start);
    assert_eq!(time.current_time(), start + std::time::Duration::from_millis(50));
    time.reset_at(start);
    assert_eq!(time.frame_count(), 0);
    assert!(time.elapsed().is_zero());
}
