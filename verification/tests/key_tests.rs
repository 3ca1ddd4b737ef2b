use game_stockx_api::product_details::build_product_cache_key;
use game_stockx_api::product_list::{build_cache_key, list_cache_ttl};
use game_stockx_api::platforms::{platforms_cache_key, platforms_cache_ttl};

#[test]
fn list_cache_key_exact_value() {
    let key = build_cache_key(5, 100, 0, "zelda", true);
    assert_eq!(key, "products:cat_5:limit_100:offset_0:q_zelda:dig_true");
}

#[test]
fn identical_queries_produce_identical_keys() {
    let a = build_cache_key(7, 50, 10, "mario kart", false);
    let b = build_cache_key(7, 50, 10, "mario kart", false);
    assert_eq!(a, b);
}

#[test]
fn changing_any_parameter_changes_the_key() {
    let base = build_cache_key(7, 50, 10, "mario", false);
    assert_ne!(base, build_cache_key(8, 50, 10, "mario", false));
    assert_ne!(base, build_cache_key(7, 51, 10, "mario", false));
    assert_ne!(base, build_cache_key(7, 50, 11, "mario", false));
    assert_ne!(base, build_cache_key(7, 50, 10, "maria", false));
    assert_ne!(base, build_cache_key(7, 50, 10, "mario", true));
}

#[test]
fn adversarial_query_text_does_not_collide() {
    // search text that imitates the key's own delimiters
    let a = build_cache_key(1, 2, 3, "x:dig_true", false);
    let b = build_cache_key(1, 2, 3, "x", true);
    assert_ne!(a, b);
    let c = build_cache_key(1, 2, 3, "x:dig_false:dig_true", true);
    let d = build_cache_key(1, 2, 3, "x:dig_false", true);
    assert_ne!(c, d);
}

#[test]
fn negative_parameters_render_with_sign() {
    let key = build_cache_key(-3, 100, 0, "", false);
    assert_eq!(key, "products:cat_-3:limit_100:offset_0:q_:dig_false");
}

#[test]
fn list_ttl_depends_on_offset() {
    assert_eq!(list_cache_ttl(0), 300);
    assert_eq!(list_cache_ttl(1), 60);
    assert_eq!(list_cache_ttl(100), 60);
}

#[test]
fn product_cache_key_exact_value() {
    assert_eq!(build_product_cache_key(42), "product_details:42");
    assert_eq!(build_product_cache_key(0), "product_details:0");
}

#[test]
fn platforms_key_and_ttl() {
    assert_eq!(platforms_cache_key(), "platforms:active_list");
    assert_eq!(platforms_cache_ttl(), 86400);
}
