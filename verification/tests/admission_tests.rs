use game_stockx_api::admission::AdmissionController;
use game_stockx_api::bucket::Decision;

#[test]
fn per_key_quota_two_admits_twice_then_rejects() {
    // per-key quota of 2/sec; three requests from one key in the same instant
    let mut c = AdmissionController::per_ip(2);
    let now: u64 = 42_000_000_000;
    let d1 = c.decide("/api/products", "1.2.3.4", now);
    let d2 = c.decide("/api/products", "1.2.3.4", now);
    let d3 = c.decide("/api/products", "1.2.3.4", now);
    assert_eq!(d1, Decision::Admit);
    assert_eq!(d2, Decision::Admit);
    match d3 {
        Decision::Reject { retry_after_secs } => assert!(retry_after_secs >= 1),
        Decision::Admit => panic!("third request in the same instant must be rejected"),
    }
}

#[test]
fn whitelisted_path_bypasses_exhausted_limiter() {
    let mut c = AdmissionController::per_ip(1);
    let now: u64 = 7_000_000_000;
    assert_eq!(c.decide("/api/products", "9.9.9.9", now), Decision::Admit);
    assert!(matches!(c.decide("/api/products", "9.9.9.9", now), Decision::Reject { .. }));
    // whitelisted prefixes are admitted even though the bucket is empty
    for _ in 0..5 {
        assert_eq!(c.decide("/metrics", "9.9.9.9", now), Decision::Admit);
        assert_eq!(c.decide("/ws/lobby", "9.9.9.9", now), Decision::Admit);
        assert_eq!(c.decide("/health", "9.9.9.9", now), Decision::Admit);
    }
    // and the limiter state did not change: the key is still rejected
    assert!(matches!(c.decide("/api/products", "9.9.9.9", now), Decision::Reject { .. }));
}

#[test]
fn keys_are_limited_independently() {
    let mut c = AdmissionController::per_ip(1);
    let now: u64 = 0;
    assert_eq!(c.decide("/api/products", "1.1.1.1", now), Decision::Admit);
    assert!(matches!(c.decide("/api/products", "1.1.1.1", now), Decision::Reject { .. }));
    assert_eq!(c.decide("/api/products", "2.2.2.2", now), Decision::Admit);
}

#[test]
fn global_rejection_is_terminal_with_a_retry_hint() {
    let mut c = AdmissionController::both(1, 5);
    let now: u64 = 3_000_000_000;
    assert_eq!(c.decide("/api/products", "1.1.1.1", now), Decision::Admit);
    // global bucket now empty: any key is rejected with a retry hint
    match c.decide("/api/products", "2.2.2.2", now) {
        Decision::Reject { retry_after_secs } => assert!(retry_after_secs >= 1),
        Decision::Admit => panic!("global exhaustion must reject"),
    }
    // once the global bucket has refilled, the same key is admitted
    let later = now + 2_000_000_000;
    assert_eq!(c.decide("/api/products", "2.2.2.2", later), Decision::Admit);
    // and the next request at the same instant hits the global limit again
    assert!(matches!(c.decide("/api/products", "3.3.3.3", later), Decision::Reject { .. }));
}

#[test]
fn no_limiters_admit_everything() {
    let mut c = AdmissionController::new(None, None, Vec::new());
    let now: u64 = 0;
    for _ in 0..100 {
        assert_eq!(c.decide("/api/products", "1.1.1.1", now), Decision::Admit);
    }
}

#[test]
fn zero_rate_disables_a_scope() {
    let mut c = AdmissionController::per_ip(0);
    let now: u64 = 0;
    for _ in 0..10 {
        assert_eq!(c.decide("/api/products", "1.1.1.1", now), Decision::Admit);
    }
    let mut g = AdmissionController::global(0);
    for _ in 0..10 {
        assert_eq!(g.decide("/api/products", "1.1.1.1", now), Decision::Admit);
    }
}

#[test]
fn global_quota_enforced_across_keys() {
    let mut c = AdmissionController::global(2);
    let now: u64 = 9_000_000_000;
    assert_eq!(c.decide("/api/a", "1.1.1.1", now), Decision::Admit);
    assert_eq!(c.decide("/api/b", "2.2.2.2", now), Decision::Admit);
    assert!(matches!(c.decide("/api/c", "3.3.3.3", now), Decision::Reject { .. }));
}

#[test]
fn idle_buckets_are_evicted_and_recreated_full() {
    let mut c = AdmissionController::per_ip(1);
    let t0: u64 = 0;
    let t1: u64 = 5_000_000_000;
    assert_eq!(c.decide("/api/products", "1.1.1.1", t0), Decision::Admit);
    assert_eq!(c.decide("/api/products", "2.2.2.2", t1), Decision::Admit);
    assert_eq!(c.per_key.len(), 2);
    // key 1.1.1.1 has been idle for five seconds, key 2.2.2.2 for none
    c.evict_idle(t1, 2_000_000_000);
    assert_eq!(c.per_key.len(), 1);
    assert_eq!(c.per_key[0].0, "2.2.2.2");
    // the evicted client is seen again: its bucket is recreated full
    assert_eq!(c.decide("/api/products", "1.1.1.1", t1), Decision::Admit);
}

#[test]
fn active_buckets_survive_eviction() {
    let mut c = AdmissionController::per_ip(2);
    let t0: u64 = 1_000_000_000;
    assert_eq!(c.decide("/api/products", "1.1.1.1", t0), Decision::Admit);
    c.evict_idle(t0, 60_000_000_000);
    assert_eq!(c.per_key.len(), 1);
    // the surviving bucket kept its state: one token left of two
    assert_eq!(c.decide("/api/products", "1.1.1.1", t0), Decision::Admit);
    assert!(matches!(c.decide("/api/products", "1.1.1.1", t0), Decision::Reject { .. }));
}
