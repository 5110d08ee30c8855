use wpm::live_wpm::{LiveWPM, WINDOW_MS};
use wpm::wpm::wpm_gross;

#[test]
fn keypresses_register() {
    // create tracker and press once
    let mut tracker = LiveWPM::new(0);
    tracker.press(0);

    // assert that the press was recorded
    assert!(tracker.press_count() > 0);
}

#[test]
fn average_wpm_is_correct() {
    // find expected wpm with given keys/sec
    const KEYPRESSES_PER_SEC: usize = 10;
    let expected_wpm = wpm_gross(KEYPRESSES_PER_SEC - 1, WINDOW_MS);

    // create tracker and press keys spread uniformly over one window
    let mut tracker = LiveWPM::new(0);
    for k in 0..KEYPRESSES_PER_SEC {
        tracker.press((k as u64) * (WINDOW_MS / KEYPRESSES_PER_SEC as u64));
    }

    // just past the window, the first press is strictly older than the
    // window and is purged; the nine remaining presses set the speed
    assert_eq!(tracker.wpm(WINDOW_MS + 1), expected_wpm);
}

#[test]
fn empty_tracker_reads_zero() {
    let mut tracker = LiveWPM::new(0);
    assert_eq!(tracker.wpm(5000), 0);
}

#[test]
fn queries_within_a_window_return_the_cached_value() {
    let mut tracker = LiveWPM::new(0);
    tracker.press(500);
    // one press within the window: 1 * 12.00 WPM, in centi-WPM
    assert_eq!(tracker.wpm(1000), 1200);
    // a press arrives, but the next query comes too early to recompute
    tracker.press(1100);
    assert_eq!(tracker.wpm(1500), 1200);
}

#[test]
fn stale_presses_are_purged() {
    let mut tracker = LiveWPM::new(0);
    tracker.press(100);
    assert_eq!(tracker.wpm(1000), 1200);
    // two windows later every press is strictly older than the window
    assert_eq!(tracker.wpm(3000), 0);
}
