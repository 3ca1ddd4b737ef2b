use game_stockx_api::bucket::{Decision, RateBucket, NANOS_PER_SEC};

#[test]
fn burst_capacity_admits_exactly_capacity() {
    let t0: u64 = 5_000_000_000;
    let mut b = RateBucket::new(3, 3, t0);
    for _ in 0..3 {
        assert_eq!(b.check(t0), Decision::Admit);
    }
    match b.check(t0) {
        Decision::Reject { retry_after_secs } => assert!(retry_after_secs >= 1),
        Decision::Admit => panic!("a fourth check at the same instant must fail"),
    }
}

#[test]
fn recovery_after_waiting_one_refill_interval() {
    let t0: u64 = 1_000;
    let mut b = RateBucket::new(2, 2, t0);
    assert_eq!(b.check(t0), Decision::Admit);
    assert_eq!(b.check(t0), Decision::Admit);
    assert!(matches!(b.check(t0), Decision::Reject { .. }));
    // rate 2/s: one token accrues within half a second
    let t1 = t0 + NANOS_PER_SEC / 2;
    assert_eq!(b.check(t1), Decision::Admit);
}

#[test]
fn failed_check_leaves_bucket_unchanged() {
    let t0: u64 = 0;
    let mut b = RateBucket::new(1, 1, t0);
    assert_eq!(b.check(t0), Decision::Admit);
    let before = b;
    assert!(matches!(b.check(t0), Decision::Reject { .. }));
    assert_eq!(b, before);
    assert!(matches!(b.check(t0), Decision::Reject { .. }));
    assert_eq!(b, before);
}

#[test]
fn retry_hint_is_at_least_one_second() {
    let t0: u64 = 0;
    let mut b = RateBucket::new(1000, 1000, t0);
    for _ in 0..1000 {
        assert_eq!(b.check(t0), Decision::Admit);
    }
    match b.check(t0) {
        Decision::Reject { retry_after_secs } => assert_eq!(retry_after_secs, 1),
        Decision::Admit => panic!("exhausted bucket must reject"),
    }
}

#[test]
fn refill_never_exceeds_capacity() {
    let t0: u64 = 0;
    let mut b = RateBucket::new(2, 2, t0);
    assert_eq!(b.check(t0), Decision::Admit);
    assert_eq!(b.check(t0), Decision::Admit);
    // a very long wait refills to capacity, not beyond
    let t1 = t0 + 3600 * NANOS_PER_SEC;
    assert_eq!(b.check(t1), Decision::Admit);
    assert_eq!(b.check(t1), Decision::Admit);
    assert!(matches!(b.check(t1), Decision::Reject { .. }));
}
