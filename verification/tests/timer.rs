use muxux_core::layout::timer::SnapshotTimer;

#[test]
fn new_session_is_immediately_due() {
    let timer = SnapshotTimer::new(5000);
    let sessions = vec!["s1".to_string()];
    let due = timer.sessions_due(&sessions, 10000);
    assert_eq!(due, vec!["s1"]);
}

#[test]
fn recently_captured_session_is_not_due() {
    let mut timer = SnapshotTimer::new(5000);
    timer.record_capture("s1", 10000);
    let sessions = vec!["s1".to_string()];
    // Only 1000ms since capture, interval is 5000ms
    let due = timer.sessions_due(&sessions, 11000);
    assert!(due.is_empty());
}

#[test]
fn session_past_interval_is_due() {
    let mut timer = SnapshotTimer::new(5000);
    timer.record_capture("s1", 10000);
    let sessions = vec!["s1".to_string()];
    // 6000ms since capture, interval is 5000ms
    let due = timer.sessions_due(&sessions, 16000);
    assert_eq!(due, vec!["s1"]);
}

#[test]
fn removed_session_is_no_longer_tracked() {
    let mut timer = SnapshotTimer::new(5000);
    timer.record_capture("s1", 10000);
    timer.remove_session("s1");
    // After removal, the session has no last_capture entry, so it's
    // immediately due again if it reappears in the session list
    let sessions = vec!["s1".to_string()];
    let due = timer.sessions_due(&sessions, 10001);
    assert_eq!(due, vec!["s1"]);
}

#[test]
fn mixed_due_and_not_due() {
    let mut timer = SnapshotTimer::new(5000);
    timer.record_capture("s1", 10000);
    timer.record_capture("s2", 5000);
    // s3 has never been captured
    let sessions = vec!["s1".to_string(), "s2".to_string(), "s3".to_string()];
    // At time 12000:
    //   s1: 2000ms ago -> not due
    //   s2: 7000ms ago -> due
    //   s3: never captured -> due
    let due = timer.sessions_due(&sessions, 12000);
    assert_eq!(due, vec!["s2", "s3"]);
}

#[test]
fn exact_interval_boundary_is_due() {
    let mut timer = SnapshotTimer::new(5000);
    timer.record_capture("s1", 10000);
    let sessions = vec!["s1".to_string()];
    // Exactly 5000ms since capture
    let due = timer.sessions_due(&sessions, 15000);
    assert_eq!(due, vec!["s1"]);
}

#[test]
fn interval_accessor() {
    let timer = SnapshotTimer::new(3000);
    assert_eq!(timer.interval_ms(), 3000);
}

#[test]
fn one_millisecond_before_the_interval_is_not_due() {
    let mut timer = SnapshotTimer::new(5000);
    timer.record_capture("s1", 10000);
    let sessions = vec!["s1".to_string()];
    assert!(timer.sessions_due(&sessions, 14999).is_empty());
}

#[test]
fn clock_that_went_backward_counts_as_no_time_passed() {
    let mut timer = SnapshotTimer::new(1);
    timer.record_capture("s1", 10000);
    let sessions = vec!["s1".to_string()];
    assert!(timer.sessions_due(&sessions, 9000).is_empty());
    let instant = SnapshotTimer::new(0);
    assert_eq!(instant.sessions_due(&sessions, 0), vec!["s1"]);
}

#[test]
fn record_capture_replaces_the_earlier_record() {
    let mut timer = SnapshotTimer::new(5000);
    timer.record_capture("s1", 1000);
    timer.record_capture("s1", 10000);
    let sessions = vec!["s1".to_string(), "s1".to_string()];
    assert!(timer.sessions_due(&sessions, 12000).is_empty());
    assert_eq!(timer.sessions_due(&sessions, 15000), vec!["s1", "s1"]);
    assert_eq!(timer.interval_ms(), 5000);
}
