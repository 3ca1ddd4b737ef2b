//! The catalog detail endpoint and its freshness split.
//!
//! The expensive, rarely-changing portion of a detail response — product
//! properties, every release with its *complete* bid list, screenshots — is
//! cached long-lived as a [`CachedProduct`]. The cheap, per-caller portion
//! is recomputed on every request: the requesting user's own identity is
//! removed from each release's bid list before the response is returned, so
//! a user never sees their own entry reflected back as another bidder. When
//! no user is known, the bid lists are returned unfiltered: the server never
//! guesses an identity.
//!
//! Cached data is never returned with the recombination step skipped: a
//! [`ProductResponse`] is built from a [`CachedProduct`] only by
//! [`combine_response`], which always applies the exclusion.

use crate::cache::{cached_value, CacheRead};
use crate::numfmt::push_i64;
use vstd::prelude::*;
use vstd::string::StringExecFns;

verus! {

broadcast use vstd::seq::group_seq_axioms;

/// The stable properties of a product.
#[derive(Debug, Clone)]
pub struct ProductProperties {
    pub id: i32,
    pub name: String,
    pub summary: String,
    pub first_release_date: Option<i32>,
    pub image_url: Option<String>,
}

/// One release of a product. `bid_user_logins` holds the identities of the
/// users bidding on this release.
#[derive(Debug, Clone)]
pub struct ProductReleaseInfo {
    pub release_id: i32,
    pub release_date: Option<i32>,
    pub release_region: String,
    pub platform_name: String,
    pub platform_id: i32,
    pub release_status: Option<i32>,
    pub bid_user_logins: Vec<String>,
    pub digital_only: bool,
    pub serial: Option<Vec<String>>,
}

/// The stable portion of a detail response, as it is cached: product
/// properties, every release with its complete, unfiltered bid list, and
/// the screenshots.
#[derive(Debug, Clone)]
pub struct CachedProduct {
    pub product: ProductProperties,
    pub releases: Vec<ProductReleaseInfo>,
    pub screenshots: Vec<String>,
}

/// The detail response as it is returned to one caller: the stable data
/// with that caller's identity excluded from every bid list.
#[derive(Debug, Clone)]
pub struct ProductResponse {
    pub product: ProductProperties,
    pub releases: Vec<ProductReleaseInfo>,
    pub screenshots: Vec<String>,
}

/// The bid list `bids` with every entry reading `user` removed.
pub open spec fn spec_excluded_bids(bids: Seq<String>, user: Seq<char>) -> Seq<String> {
    bids.filter(|s: String| s@ != user)
}

/// The identity a caller presented, as a character sequence.
pub open spec fn user_view(user_login: Option<&String>) -> Option<Seq<char>> {
    match user_login {
        Some(u) => Some(u@),
        None => None,
    }
}

/// Release `b` is release `a` with the caller's identity excluded from the
/// bid list and every other field unchanged.
pub open spec fn release_excluded(
    a: ProductReleaseInfo,
    user: Option<Seq<char>>,
    b: ProductReleaseInfo,
) -> bool {
    &&& b.release_id == a.release_id
    &&& b.release_date == a.release_date
    &&& b.release_region == a.release_region
    &&& b.platform_name == a.platform_name
    &&& b.platform_id == a.platform_id
    &&& b.release_status == a.release_status
    &&& b.digital_only == a.digital_only
    &&& b.serial == a.serial
    &&& b.bid_user_logins@ == match user {
        Some(u) => spec_excluded_bids(a.bid_user_logins@, u),
        None => a.bid_user_logins@,
    }
}

/// Response `resp` is the recombination of the stable data `cached` for a
/// caller with identity `user`.
pub open spec fn spec_combined(
    cached: CachedProduct,
    user: Option<Seq<char>>,
    resp: ProductResponse,
) -> bool {
    &&& resp.product == cached.product
    &&& resp.screenshots == cached.screenshots
    &&& resp.releases@.len() == cached.releases@.len()
    &&& forall|i: int|
        0 <= i < cached.releases@.len() ==> release_excluded(
            cached.releases@[i],
            user,
            #[trigger] resp.releases@[i],
        )
}

/// Taking the front element off a suffix of `orig` leaves the next suffix.
proof fn lemma_remove_front<A>(orig: Seq<A>, r0: Seq<A>, r1: Seq<A>, i: int)
    requires
        0 <= i < orig.len(),
        r0 == orig.subrange(i, orig.len() as int),
        r1 == r0.remove(0),
    ensures
        r0[0] == orig[i],
        r1 == orig.subrange(i + 1, orig.len() as int),
        r1.len() == orig.len() - i - 1,
{
    assert(r0.len() == orig.len() - i);
    assert(orig.subrange(i, orig.len() as int)[0] == orig[i]);
    let tail = r0.subrange(1, r0.len() as int);
    assert(r1 == r0.subrange(0, 0) + tail);
    assert(r1.len() == r0.subrange(0, 0).len() + tail.len());
    assert forall|k: int| 0 <= k < r1.len() implies r1[k] == orig[i + 1 + k] by {
        assert((r0.subrange(0, 0) + tail)[k] == tail[k]);
        assert(tail[k] == r0[1 + k]);
        assert(orig.subrange(i, orig.len() as int)[1 + k] == orig[i + 1 + k]);
    }
    assert(r1 =~= orig.subrange(i + 1, orig.len() as int));
}

/// A fresh element appended to a processed prefix of `orig` extends it.
proof fn lemma_prefix_step<A>(orig: Seq<A>, i: int)
    requires
        0 <= i < orig.len(),
    ensures
        orig.subrange(0, i + 1).drop_last() == orig.subrange(0, i),
        orig.subrange(0, i + 1).last() == orig[i],
        orig.subrange(0, i + 1).len() == i + 1,
{
    let done = orig.subrange(0, i + 1);
    assert forall|k: int| 0 <= k < i implies done.drop_last()[k] == orig.subrange(0, i)[k] by {
        assert(done.drop_last()[k] == done[k]);
        assert(done[k] == orig[k]);
        assert(orig.subrange(0, i)[k] == orig[k]);
    }
    assert(done.drop_last() =~= orig.subrange(0, i));
}

/// The bid list `bids` without the entries reading `user`, in order.
fn filter_bids(bids: Vec<String>, user: &String) -> (r: Vec<String>)
    ensures
        r@ == spec_excluded_bids(bids@, user@),
{
    let ghost orig = bids@;
    let mut rest = bids;
    let mut out: Vec<String> = Vec::new();
    proof {
        reveal(Seq::filter);
        assert(orig.subrange(0, 0) =~= Seq::<String>::empty());
        assert(rest@ =~= orig.subrange(0, orig.len() as int));
    }
    while rest.len() > 0
        invariant
            rest@.len() <= orig.len(),
            rest@ == orig.subrange(orig.len() - rest@.len(), orig.len() as int),
            out@ == spec_excluded_bids(orig.subrange(0, orig.len() - rest@.len()), user@),
        decreases rest.len(),
    {
        let ghost i = orig.len() - rest@.len();
        let ghost r0 = rest@;
        let s = rest.remove(0);
        proof {
            lemma_remove_front(orig, r0, rest@, i);
            assert(s == orig[i]);
        }
        if !(s == *user) {
            out.push(s);
        }
        proof {
            reveal(Seq::filter);
            lemma_prefix_step(orig, i);
        }
    }
    proof {
        assert(orig.subrange(0, orig.len() as int) =~= orig);
    }
    out
}

/// Recombines the cached stable data with the exclusion the caller is owed:
/// for a known caller, that caller's identity is removed from every
/// release's bid list; for an anonymous caller the bid lists are returned
/// complete.
pub fn combine_response(cached: CachedProduct, user_login: Option<&String>) -> (resp:
    ProductResponse)
    ensures
        spec_combined(cached, user_view(user_login), resp),
{
    let ghost orig = cached.releases@;
    let mut rest = cached.releases;
    let mut releases: Vec<ProductReleaseInfo> = Vec::new();
    proof {
        assert(rest@ =~= orig.subrange(0, orig.len() as int));
    }
    while rest.len() > 0
        invariant
            rest@.len() <= orig.len(),
            rest@ == orig.subrange(orig.len() - rest@.len(), orig.len() as int),
            releases@.len() == orig.len() - rest@.len(),
            forall|j: int|
                0 <= j < releases@.len() ==> release_excluded(
                    orig[j],
                    user_view(user_login),
                    #[trigger] releases@[j],
                ),
        decreases rest.len(),
    {
        let ghost i = orig.len() - rest@.len();
        let ghost r0 = rest@;
        let mut rel = rest.remove(0);
        proof {
            lemma_remove_front(orig, r0, rest@, i);
            assert(rel == orig[i]);
        }
        match user_login {
            Some(u) => {
                let filtered = filter_bids(rel.bid_user_logins, u);
                rel = ProductReleaseInfo { bid_user_logins: filtered, ..rel };
            },
            None => {},
        }
        releases.push(rel);
    }
    ProductResponse { product: cached.product, releases, screenshots: cached.screenshots }
}

/// Serves a detail request from a cache read when it hit: a decoded stable
/// entry is recombined for this caller; anything else is a miss and the
/// caller must query the authoritative store. Cached data is never served
/// without the recombination step.
pub fn detail_cache_step(read: CacheRead<CachedProduct>, user_login: Option<&String>) -> (r: Option<
    ProductResponse,
>)
    ensures
        match read {
            CacheRead::Decoded(c) => r matches Some(resp) && spec_combined(
                c,
                user_view(user_login),
                resp,
            ),
            _ => r is None,
        },
{
    match cached_value(read) {
        Some(c) => Some(combine_response(c, user_login)),
        None => None,
    }
}

/// The cache key of the stable detail entry for a product.
pub open spec fn spec_product_cache_key(product_id: int) -> Seq<char> {
    "product_details:"@ + crate::numfmt::dec_int(product_id)
}

/// Builds the cache key of the stable detail entry.
pub fn build_product_cache_key(product_id: i32) -> (key: String)
    ensures
        key@ == spec_product_cache_key(product_id as int),
{
    let mut s = String::new();
    s.append("product_details:");
    push_i64(&mut s, product_id as i64);
    proof {
        assert(s@ =~= spec_product_cache_key(product_id as int));
    }
    s
}

/// Time-to-live of the stable detail entry, in seconds: one hour, since
/// base product and release data changes rarely; the exclusion step keeps
/// the per-caller view fresh regardless.
pub fn detail_cache_ttl() -> (ttl: u64)
    ensures
        ttl == 3600,
{
    3600
}

/// A caller never sees their own identity among the bidders: in any
/// recombination for a known caller — the hit path and the miss path both
/// produce one — no release's bid list contains the caller, whatever was
/// cached.
pub proof fn lemma_caller_never_listed(cached: CachedProduct, user: Seq<char>, resp: ProductResponse)
    requires
        spec_combined(cached, Some(user), resp),
    ensures
        forall|i: int, j: int|
            0 <= i < resp.releases@.len() && 0 <= j < resp.releases@[i].bid_user_logins@.len()
                ==> (#[trigger] resp.releases@[i].bid_user_logins@[j])@ != user,
{
    broadcast use vstd::seq_lib::group_filter_ensures;

    assert forall|i: int, j: int|
        0 <= i < resp.releases@.len() && 0 <= j
            < resp.releases@[i].bid_user_logins@.len() implies (#[trigger] resp.releases@[i].bid_user_logins@[j])@
        != user by {
        assert(release_excluded(cached.releases@[i], Some(user), resp.releases@[i]));
    }
}

} // verus!
