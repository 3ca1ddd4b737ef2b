use game_stockx_api::bucket::Decision;
use game_stockx_api::metrics::{AdmissionStats, CacheStats};
use game_stockx_api::sales::{Sale, SaleRequest};

#[test]
fn admission_stats_count_each_decision_once() {
    let mut s = AdmissionStats::new();
    s.record(&Decision::Admit);
    s.record(&Decision::Admit);
    s.record(&Decision::Reject { retry_after_secs: 1 });
    assert_eq!(s.admitted, 2);
    assert_eq!(s.rejected, 1);
}

#[test]
fn admission_stats_saturate_instead_of_wrapping() {
    let mut s = AdmissionStats { admitted: u64::MAX, rejected: 0 };
    s.record(&Decision::Admit);
    assert_eq!(s.admitted, u64::MAX);
    assert_eq!(s.rejected, 0);
}

#[test]
fn cache_stats_count_hits_and_misses() {
    let mut s = CacheStats::new();
    s.record(true);
    s.record(false);
    s.record(false);
    assert_eq!(s.hits, 1);
    assert_eq!(s.misses, 2);
}

#[test]
fn a_sale_carries_its_sum_and_a_fresh_id() {
    let sale = Sale::new(150);
    assert_eq!(sale.sum, 150);
    assert_eq!(sale.id.len(), 36);
    assert_eq!(sale.id.chars().filter(|c| *c == '-').count(), 4);
    let other = Sale::new(150);
    assert_ne!(sale.id, other.id, "identifiers are fresh per sale");
}

#[test]
fn a_request_without_a_sum_makes_no_sale() {
    assert!(SaleRequest { sum: None }.to_sale().is_none());
    let sale = SaleRequest { sum: Some(42) }.to_sale().expect("a sum makes a sale");
    assert_eq!(sale.sum, 42);
}
