use falling_blocks::timer::{MovementTimer, DEFAULT_INTERVAL};

#[test]
fn timer_starts_with_nothing_gathered() {
    let timer = MovementTimer::new(DEFAULT_INTERVAL);
    assert_eq!(DEFAULT_INTERVAL, 500_000);
    assert_eq!(timer.interval(), 500_000);
    assert_eq!(timer.elapsed(), 0);
}

#[test]
fn timer_fires_when_the_interval_is_reached() {
    let mut timer = MovementTimer::new(500_000);
    assert!(!timer.tick(300_000));
    assert_eq!(timer.elapsed(), 300_000);
    assert!(!timer.tick(199_999));
    assert_eq!(timer.elapsed(), 499_999);
    assert!(timer.tick(1));
    assert_eq!(timer.elapsed(), 0);
}

#[test]
fn timer_keeps_what_goes_beyond_the_interval() {
    let mut timer = MovementTimer::new(500_000);
    assert!(!timer.tick(300_000));
    assert!(timer.tick(300_000));
    assert_eq!(timer.elapsed(), 100_000);
    assert!(timer.tick(1_650_000));
    assert_eq!(timer.elapsed(), 250_000);
}

#[test]
fn timer_with_no_time_passed() {
    let mut timer = MovementTimer::new(10);
    assert!(!timer.tick(0));
    assert_eq!(timer.elapsed(), 0);
    assert!(!timer.tick(9));
    assert!(!timer.tick(0));
    assert_eq!(timer.elapsed(), 9);
}

#[test]
fn timer_takes_the_longest_time() {
    let mut timer = MovementTimer::new(1_000);
    assert!(!timer.tick(999));
    assert!(timer.tick(u64::MAX));
    // 999 + (2^64 - 1) = 2^64 + 998, and 2^64 = 18446744073709551616 leaves 616
    assert_eq!(timer.elapsed(), (616 + 998) % 1_000);
    let mut timer = MovementTimer::new(u64::MAX);
    assert!(!timer.tick(u64::MAX - 1));
    assert!(timer.tick(u64::MAX));
    assert_eq!(timer.elapsed(), u64::MAX - 1);
}

#[test]
fn timer_without_an_interval_fires_every_time() {
    let mut timer = MovementTimer::new(0);
    assert!(timer.tick(0));
    assert!(timer.tick(17));
    assert_eq!(timer.elapsed(), 0);
    assert_eq!(timer.interval(), 0);
}
