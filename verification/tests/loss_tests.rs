use speed_test::loss::LossTracker;

#[test]
fn nothing_received() {
    let t = LossTracker::new();
    assert!(!t.started());
    assert_eq!(t.received(), 0);
    assert_eq!(t.expected(), None);
    assert_eq!(t.lost(), None);
}

#[test]
fn complete_stream_loses_nothing() {
    let mut t = LossTracker::new();
    for s in 0..100 {
        t.observe(s);
    }
    assert_eq!(t.received(), 100);
    assert_eq!(t.expected(), Some(100));
    assert_eq!(t.lost(), Some(0));
}

#[test]
fn gaps_are_counted() {
    let mut t = LossTracker::new();
    for s in [3i64, 4, 7, 9] {
        t.observe(s);
    }
    assert_eq!(t.received(), 4);
    assert_eq!(t.expected(), Some(7));
    assert_eq!(t.lost(), Some(3));
}

#[test]
fn duplicates_count_once() {
    let mut t = LossTracker::new();
    for s in [10i64, 11, 11, 12, 10, 12] {
        t.observe(s);
    }
    assert_eq!(t.received(), 3);
    assert_eq!(t.lost(), Some(0));
}

#[test]
fn late_datagram_before_first() {
    let mut t = LossTracker::new();
    for s in [5i64, 4, 6] {
        t.observe(s);
    }
    assert_eq!(t.expected(), Some(2));
    assert_eq!(t.lost(), Some(-1));
}

#[test]
fn extreme_numbers_do_not_overflow() {
    let mut t = LossTracker::new();
    t.observe(i64::MIN);
    t.observe(i64::MAX);
    assert_eq!(t.expected(), Some(u64::MAX as i128 + 1));
    assert_eq!(t.lost(), Some(u64::MAX as i128 - 1));
}
