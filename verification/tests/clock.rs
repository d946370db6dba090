use cepheus_trader::clock::{target_for_elapsed, LiveClock};
use std::time::{Duration, Instant};

#[test]
fn fixed_rate_is_exact_and_fractional_seconds_do_not_commit_early() {
    let start = Instant::now();
    let clock = LiveClock::new(100, start);
    assert_eq!(clock.target_second(start + Duration::from_millis(20)), 100);
    assert_eq!(clock.target_second(start + Duration::from_secs(1)), 128);
    assert_eq!(clock.target_second(start + Duration::from_secs(60)), 1_780);
}

#[test]
fn reanchor_freezes_elapsed_downtime() {
    let start = Instant::now();
    let mut clock = LiveClock::new(40, start);
    assert_eq!(clock.target_second(start + Duration::from_secs(1)), 68);
    clock.reanchor(68, start + Duration::from_secs(600));
    assert_eq!(clock.target_second(start + Duration::from_secs(600)), 68);
}

#[test]
fn elapsed_time_scales_at_twenty_eight_game_seconds_per_second() {
    assert_eq!(target_for_elapsed(100, 0), 100);
    assert_eq!(target_for_elapsed(100, 35_714_285), 100);
    assert_eq!(target_for_elapsed(100, 35_714_286), 101);
    assert_eq!(target_for_elapsed(0, 1_000_000_000), 28);
    assert_eq!(target_for_elapsed(u64::MAX - 1, 1_000_000_000), u64::MAX);
    assert_eq!(target_for_elapsed(5, u128::MAX), u64::MAX);
}

#[test]
fn a_clock_read_before_its_anchor_shows_the_anchor() {
    let start = Instant::now() + Duration::from_secs(10);
    let clock = LiveClock::new(7, start);
    assert_eq!(clock.target_second(start - Duration::from_secs(5)), 7);
}
