use pongi::timer::Timer;
use std::time::{Duration, Instant};

#[test]
fn timer_measures_from_the_given_instant() {
    let start = Instant::now();
    let mut timer = Timer::started_at(start);
    assert_eq!(timer.start_time, start);
    let later = start + Duration::from_millis(250);
    timer.reset_to(later);
    assert_eq!(timer.start_time, later);
}

#[test]
fn timer_new_and_reset_read_the_clock() {
    let before = Instant::now();
    let mut timer = Timer::new();
    assert!(timer.start_time >= before);
    let first = timer.start_time;
    timer.reset();
    assert!(timer.start_time >= first);
}
