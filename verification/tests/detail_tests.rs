use game_stockx_api::cache::CacheRead;
use game_stockx_api::product_details::{
    combine_response, detail_cache_step, detail_cache_ttl, CachedProduct, ProductProperties,
    ProductReleaseInfo,
};

fn release(id: i32, bids: &[&str]) -> ProductReleaseInfo {
    ProductReleaseInfo {
        release_id: id,
        release_date: Some(14000),
        release_region: "PAL".to_string(),
        platform_name: "Dreamcast".to_string(),
        platform_id: 23,
        release_status: Some(1),
        bid_user_logins: bids.iter().map(|s| s.to_string()).collect(),
        digital_only: false,
        serial: Some(vec!["T-123".to_string()]),
    }
}

fn cached_with_bids(bids: &[&str]) -> CachedProduct {
    CachedProduct {
        product: ProductProperties {
            id: 77,
            name: "Shenmue".to_string(),
            summary: "An adventure".to_string(),
            first_release_date: Some(11000),
            image_url: Some("//img/77.jpg".to_string()),
        },
        releases: vec![release(500, bids)],
        screenshots: vec!["//shot/1.jpg".to_string()],
    }
}

#[test]
fn known_caller_is_excluded_from_bid_lists() {
    let cached = cached_with_bids(&["alice", "bob"]);
    let alice = "alice".to_string();
    let resp = combine_response(cached, Some(&alice));
    assert_eq!(resp.releases.len(), 1);
    assert_eq!(resp.releases[0].bid_user_logins, vec!["bob".to_string()]);
}

#[test]
fn anonymous_caller_sees_the_complete_bid_list() {
    let cached = cached_with_bids(&["alice", "bob"]);
    let resp = combine_response(cached, None);
    assert_eq!(
        resp.releases[0].bid_user_logins,
        vec!["alice".to_string(), "bob".to_string()]
    );
}

#[test]
fn exclusion_applies_on_the_cache_hit_path() {
    let cached = cached_with_bids(&["alice", "bob"]);
    let alice = "alice".to_string();
    let resp = detail_cache_step(CacheRead::Decoded(cached), Some(&alice))
        .expect("a decoded entry is served");
    for r in &resp.releases {
        assert!(!r.bid_user_logins.contains(&alice));
    }
    assert_eq!(resp.releases[0].bid_user_logins, vec!["bob".to_string()]);
}

#[test]
fn non_hits_fall_through_to_the_authoritative_store() {
    let alice = "alice".to_string();
    assert!(detail_cache_step(CacheRead::Absent, Some(&alice)).is_none());
    assert!(detail_cache_step(CacheRead::Malformed, Some(&alice)).is_none());
    assert!(detail_cache_step(CacheRead::Unavailable, None).is_none());
}

#[test]
fn exclusion_preserves_every_other_field() {
    let cached = cached_with_bids(&["carol", "dave", "carol"]);
    let carol = "carol".to_string();
    let resp = combine_response(cached, Some(&carol));
    assert_eq!(resp.product.id, 77);
    assert_eq!(resp.product.name, "Shenmue");
    assert_eq!(resp.screenshots, vec!["//shot/1.jpg".to_string()]);
    let r = &resp.releases[0];
    assert_eq!(r.release_id, 500);
    assert_eq!(r.release_region, "PAL");
    assert_eq!(r.platform_name, "Dreamcast");
    assert_eq!(r.platform_id, 23);
    assert_eq!(r.release_status, Some(1));
    assert_eq!(r.serial, Some(vec!["T-123".to_string()]));
    assert!(!r.digital_only);
    // every occurrence of the caller is removed, others keep their order
    assert_eq!(r.bid_user_logins, vec!["dave".to_string()]);
}

#[test]
fn exclusion_of_unlisted_caller_changes_nothing() {
    let cached = cached_with_bids(&["alice", "bob"]);
    let erin = "erin".to_string();
    let resp = combine_response(cached, Some(&erin));
    assert_eq!(
        resp.releases[0].bid_user_logins,
        vec!["alice".to_string(), "bob".to_string()]
    );
}

#[test]
fn detail_entry_is_cached_for_an_hour() {
    assert_eq!(detail_cache_ttl(), 3600);
}
