use game_stockx_api::cache::{cached_value, is_cache_hit, CacheRead};
use game_stockx_api::product_list::{
    combine_list_response, CountResult, ListQuery, Pagination, ProductListItem,
    ProductListResponse,
};
use std::collections::HashMap;

#[test]
fn everything_but_a_decoded_value_is_a_miss() {
    assert!(cached_value::<i64>(CacheRead::Absent).is_none());
    assert!(cached_value::<i64>(CacheRead::Malformed).is_none());
    assert!(cached_value::<i64>(CacheRead::Unavailable).is_none());
    assert_eq!(cached_value::<i64>(CacheRead::Decoded(7)), Some(7));
    assert!(is_cache_hit(&CacheRead::Decoded(7)));
    assert!(!is_cache_hit::<i64>(&CacheRead::Malformed));
}

#[test]
fn combine_uses_first_count_row_or_zero() {
    let items = vec![ProductListItem {
        id: 1,
        name: "Okami".to_string(),
        first_release_date: Some(13000),
        image_url: None,
    }];
    let r = combine_list_response(items, vec![CountResult { total: 250 }]);
    assert_eq!(r.total_count, 250);
    assert_eq!(r.items.len(), 1);
    let empty = combine_list_response(Vec::new(), Vec::new());
    assert_eq!(empty.total_count, 0);
    assert!(empty.items.is_empty());
}

struct FakeStore {
    entries: HashMap<String, (ProductListResponse, u64)>,
}

impl FakeStore {
    fn get(&self, key: &str) -> CacheRead<ProductListResponse> {
        match self.entries.get(key) {
            Some((v, _ttl)) => CacheRead::Decoded(v.clone()),
            None => CacheRead::Absent,
        }
    }

    fn set(&mut self, key: String, value: ProductListResponse, ttl: u64) {
        self.entries.insert(key, (value, ttl));
    }
}

fn authoritative_fetch(calls: &mut u32) -> (Vec<ProductListItem>, Vec<CountResult>) {
    *calls += 1;
    let items = vec![
        ProductListItem {
            id: 10,
            name: "Ico".to_string(),
            first_release_date: Some(11500),
            image_url: Some("//img/10.jpg".to_string()),
        },
        ProductListItem {
            id: 11,
            name: "Rez".to_string(),
            first_release_date: None,
            image_url: None,
        },
    ];
    (items, vec![CountResult { total: 2 }])
}

fn run_list_request(
    p: &Pagination,
    store: &mut FakeStore,
    db_calls: &mut u32,
) -> ProductListResponse {
    let q = ListQuery::from_pagination(p);
    let key = q.cache_key();
    if let Some(hit) = cached_value(store.get(&key)) {
        return hit;
    }
    let (items, counts) = authoritative_fetch(db_calls);
    let response = combine_list_response(items, counts);
    store.set(key, response.clone(), q.cache_ttl());
    response
}

#[test]
fn second_identical_request_is_served_without_a_store_call() {
    let mut store = FakeStore { entries: HashMap::new() };
    let mut db_calls: u32 = 0;
    let p = Pagination {
        limit: None,
        offset: Some(0),
        query: Some("ico".to_string()),
        ignore_digital: None,
        sort: None,
        cat: 6,
    };
    let first = run_list_request(&p, &mut store, &mut db_calls);
    assert_eq!(db_calls, 1);
    // first page is cached for 300 seconds
    let key = ListQuery::from_pagination(&p).cache_key();
    assert_eq!(store.entries.get(&key).unwrap().1, 300);
    let second = run_list_request(&p, &mut store, &mut db_calls);
    assert_eq!(db_calls, 1, "a cache hit must not reach the authoritative store");
    assert_eq!(second.total_count, first.total_count);
    assert_eq!(second.items.len(), first.items.len());
    for (a, b) in first.items.iter().zip(second.items.iter()) {
        assert_eq!(a.id, b.id);
        assert_eq!(a.name, b.name);
    }
}

#[test]
fn cache_hit_payload_is_the_payload_that_was_cached() {
    // the payload a hit returns is exactly the combined response as of the
    // time it was cached: total count consistent with the cached items
    let items = vec![ProductListItem {
        id: 3,
        name: "Journey".to_string(),
        first_release_date: Some(15400),
        image_url: None,
    }];
    let combined = combine_list_response(items, vec![CountResult { total: 41 }]);
    let read = CacheRead::Decoded(combined.clone());
    let served = cached_value(read).expect("decoded entry is a hit");
    assert_eq!(served.total_count, 41);
    assert_eq!(served.items.len(), combined.items.len());
    assert_eq!(served.items[0].id, 3);
    assert_eq!(served.items[0].name, "Journey");
}

#[test]
fn later_pages_use_the_shorter_ttl() {
    let mut store = FakeStore { entries: HashMap::new() };
    let mut db_calls: u32 = 0;
    let p = Pagination {
        limit: Some(20),
        offset: Some(40),
        query: None,
        ignore_digital: Some(true),
        sort: None,
        cat: 6,
    };
    run_list_request(&p, &mut store, &mut db_calls);
    let key = ListQuery::from_pagination(&p).cache_key();
    assert_eq!(store.entries.get(&key).unwrap().1, 60);
}

#[test]
fn pagination_defaults_match_the_endpoint() {
    let p = Pagination {
        limit: None,
        offset: None,
        query: None,
        ignore_digital: None,
        sort: None,
        cat: 9,
    };
    let q = ListQuery::from_pagination(&p);
    assert_eq!(q.limit, 100);
    assert_eq!(q.offset, 0);
    assert_eq!(q.query, "");
    assert!(!q.ignore_digital);
    assert_eq!(q.cat, 9);
}
