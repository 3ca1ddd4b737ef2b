//! The catalog list endpoint: query normalization, the cache key and its
//! injectivity, the time-to-live policy, and the combination of a page of
//! items with the accompanying total count.
//!
//! The caller runs the paginated search query and the count query against
//! the authoritative store under identical filter predicates; this module
//! fixes what is cached, under which key, and for how long.

use crate::numfmt::{dec_int, lemma_dec_int_chars, lemma_dec_int_injective, push_i64};
use vstd::prelude::*;
use vstd::string::StringExecFns;

verus! {

broadcast use vstd::seq::group_seq_axioms;

/// Query parameters of the list endpoint, as they arrive.
pub struct Pagination {
    pub limit: Option<i64>,
    pub offset: Option<i64>,
    pub query: Option<String>,
    pub ignore_digital: Option<bool>,
    pub sort: Option<String>,
    pub cat: i64,
}

/// A normalized list query: every optional parameter resolved to its
/// default (100 items, offset 0, empty search text, digital kept).
pub struct ListQuery {
    pub cat: i64,
    pub limit: i64,
    pub offset: i64,
    pub query: String,
    pub ignore_digital: bool,
}

/// One page row of the list response.
#[derive(Debug, Clone)]
pub struct ProductListItem {
    pub id: i32,
    pub name: String,
    pub first_release_date: Option<i32>,
    pub image_url: Option<String>,
}

/// Row shape of the accompanying total-count query.
#[derive(Debug, Clone)]
pub struct CountResult {
    pub total: i64,
}

/// The list payload that is returned and cached: one page of items plus the
/// total count computed under the same filter predicates.
#[derive(Debug, Clone)]
pub struct ProductListResponse {
    pub items: Vec<ProductListItem>,
    pub total_count: i64,
}

/// The rendering of a flag inside a cache key.
pub open spec fn bool_str(b: bool) -> Seq<char> {
    if b {
        "true"@
    } else {
        "false"@
    }
}

/// The cache key of a list query, encoding all five semantically relevant
/// parameters. Written right-nested so that it decomposes field by field.
pub open spec fn spec_list_cache_key(
    cat: int,
    limit: int,
    offset: int,
    query: Seq<char>,
    ignore_digital: bool,
) -> Seq<char> {
    "products:cat_"@ + (dec_int(cat) + (":limit_"@ + (dec_int(limit) + (":offset_"@ + (dec_int(
        offset,
    ) + (":q_"@ + (query + (":dig_"@ + bool_str(ignore_digital)))))))))
}

/// Builds the cache key of a list query.
#[verifier::rlimit(50)]
pub fn build_cache_key(cat: i64, limit: i64, offset: i64, query: &str, ignore_digital: bool) -> (key:
    String)
    ensures
        key@ == spec_list_cache_key(cat as int, limit as int, offset as int, query@, ignore_digital),
{
    let mut s = String::new();
    s.append("products:cat_");
    push_i64(&mut s, cat);
    s.append(":limit_");
    push_i64(&mut s, limit);
    s.append(":offset_");
    push_i64(&mut s, offset);
    s.append(":q_");
    s.append(query);
    s.append(":dig_");
    if ignore_digital {
        s.append("true");
    } else {
        s.append("false");
    }
    proof {
        assert(s@ =~= spec_list_cache_key(
            cat as int,
            limit as int,
            offset as int,
            query@,
            ignore_digital,
        ));
    }
    s
}

/// Time-to-live of a cached list payload, in seconds: the first page is
/// cached for 300 seconds, every later page for 60.
pub open spec fn spec_list_ttl(offset: int) -> int {
    if offset == 0 {
        300
    } else {
        60
    }
}

/// Time-to-live for the cache entry of a list query with this offset.
pub fn list_cache_ttl(offset: i64) -> (ttl: u64)
    ensures
        ttl == spec_list_ttl(offset as int),
{
    if offset == 0 {
        300
    } else {
        60
    }
}

impl ListQuery {
    /// Resolves the optional request parameters to their defaults.
    pub fn from_pagination(p: &Pagination) -> (q: ListQuery)
        ensures
            q.cat == p.cat,
            q.limit == match p.limit {
                Some(l) => l,
                None => 100,
            },
            q.offset == match p.offset {
                Some(o) => o,
                None => 0,
            },
            q.ignore_digital == match p.ignore_digital {
                Some(b) => b,
                None => false,
            },
            q.query@ == match p.query {
                Some(s) => s@,
                None => Seq::<char>::empty(),
            },
    {
        let limit = match p.limit {
            Some(l) => l,
            None => 100,
        };
        let offset = match p.offset {
            Some(o) => o,
            None => 0,
        };
        let ignore_digital = match p.ignore_digital {
            Some(b) => b,
            None => false,
        };
        let query = match &p.query {
            Some(s) => s.clone(),
            None => String::new(),
        };
        ListQuery { cat: p.cat, limit, offset, query, ignore_digital }
    }

    /// The cache key of this query.
    pub fn cache_key(&self) -> (key: String)
        ensures
            key@ == spec_list_cache_key(
                self.cat as int,
                self.limit as int,
                self.offset as int,
                self.query@,
                self.ignore_digital,
            ),
    {
        build_cache_key(self.cat, self.limit, self.offset, self.query.as_str(), self.ignore_digital)
    }

    /// The time-to-live for this query's cache entry.
    pub fn cache_ttl(&self) -> (ttl: u64)
        ensures
            ttl == spec_list_ttl(self.offset as int),
    {
        list_cache_ttl(self.offset)
    }
}

/// Combines a page of items with the result rows of the count query; a
/// count query that returned no row counts as zero.
pub fn combine_list_response(items: Vec<ProductListItem>, counts: Vec<CountResult>) -> (r:
    ProductListResponse)
    ensures
        r.items == items,
        r.total_count == if counts@.len() > 0 {
            counts@[0].total
        } else {
            0
        },
{
    let total_count = if counts.len() > 0 {
        counts[0].total
    } else {
        0
    };
    ProductListResponse { items, total_count }
}

/// Cancelling a shared prefix of two equal concatenations.
proof fn lemma_prefix_cancel(p: Seq<char>, a: Seq<char>, b: Seq<char>)
    requires
        p + a == p + b,
    ensures
        a == b,
{
    assert((p + a).len() == p.len() + a.len());
    assert((p + b).len() == p.len() + b.len());
    assert forall|i: int| 0 <= i < a.len() implies a[i] == b[i] by {
        assert((p + a)[p.len() + i] == a[i]);
        assert((p + b)[p.len() + i] == b[i]);
    }
    assert(a =~= b);
}

/// Two equal concatenations split identically at the first occurrence of a
/// delimiter character that neither left part contains.
proof fn lemma_split_at_delim(x1: Seq<char>, y1: Seq<char>, x2: Seq<char>, y2: Seq<char>, c: char)
    requires
        x1 + y1 == x2 + y2,
        forall|i: int| 0 <= i < x1.len() ==> x1[i] != c,
        forall|i: int| 0 <= i < x2.len() ==> x2[i] != c,
        y1.len() > 0 && y1[0] == c,
        y2.len() > 0 && y2[0] == c,
    ensures
        x1 == x2,
        y1 == y2,
{
    assert((x1 + y1).len() == x1.len() + y1.len());
    assert((x2 + y2).len() == x2.len() + y2.len());
    if x1.len() < x2.len() {
        assert((x1 + y1)[x1.len() as int] == y1[0]);
        assert((x2 + y2)[x1.len() as int] == x2[x1.len() as int]);
        assert(false);
    }
    if x2.len() < x1.len() {
        assert((x2 + y2)[x2.len() as int] == y2[0]);
        assert((x1 + y1)[x2.len() as int] == x1[x2.len() as int]);
        assert(false);
    }
    assert forall|i: int| 0 <= i < x1.len() implies x1[i] == x2[i] by {
        assert((x1 + y1)[i] == x1[i]);
        assert((x2 + y2)[i] == x2[i]);
    }
    assert(x1 =~= x2);
    assert forall|i: int| 0 <= i < y1.len() implies y1[i] == y2[i] by {
        assert((x1 + y1)[x1.len() + i] == y1[i]);
        assert((x2 + y2)[x2.len() + i] == y2[i]);
    }
    assert(y1 =~= y2);
}

/// A decimal field followed by a `':'`-led remainder decomposes uniquely.
proof fn lemma_key_field(n1: int, rest1: Seq<char>, n2: int, rest2: Seq<char>)
    requires
        dec_int(n1) + rest1 == dec_int(n2) + rest2,
        rest1.len() > 0 && rest1[0] == ':',
        rest2.len() > 0 && rest2[0] == ':',
    ensures
        n1 == n2,
        rest1 == rest2,
{
    lemma_dec_int_chars(n1);
    lemma_dec_int_chars(n2);
    assert(forall|i: int| 0 <= i < dec_int(n1).len() ==> #[trigger] dec_int(n1)[i] != ':');
    assert(forall|i: int| 0 <= i < dec_int(n2).len() ==> #[trigger] dec_int(n2)[i] != ':');
    lemma_split_at_delim(dec_int(n1), rest1, dec_int(n2), rest2, ':');
    lemma_dec_int_injective(n1, n2);
}

/// The trailing search text and flag decompose uniquely, although the
/// search text may itself contain the delimiter.
proof fn lemma_key_tail(q1: Seq<char>, d1: bool, q2: Seq<char>, d2: bool)
    requires
        q1 + (":dig_"@ + bool_str(d1)) == q2 + (":dig_"@ + bool_str(d2)),
    ensures
        q1 == q2,
        d1 == d2,
{
    reveal_strlit(":dig_");
    reveal_strlit("true");
    reveal_strlit("false");
    let t1 = ":dig_"@ + bool_str(d1);
    let t2 = ":dig_"@ + bool_str(d2);
    let s1 = q1 + t1;
    let s2 = q2 + t2;
    assert(t1.len() == ":dig_"@.len() + bool_str(d1).len());
    assert(t2.len() == ":dig_"@.len() + bool_str(d2).len());
    assert(s1.len() == q1.len() + t1.len());
    assert(s2.len() == q2.len() + t2.len());
    if d1 != d2 {
        if d1 {
            assert(q1.len() + 9 == q2.len() + 10);
            let k: int = q1.len() as int + 4;
            assert(s1[k] == t1[4]);
            assert(t1[4] == ":dig_"@[4]);
            assert(s2[k] == t2[5]);
            assert(t2[5] == bool_str(d2)[0]);
            assert('_' == 'f');
            assert(false);
        } else {
            assert(q1.len() + 10 == q2.len() + 9);
            let k: int = q2.len() as int + 4;
            assert(s2[k] == t2[4]);
            assert(t2[4] == ":dig_"@[4]);
            assert(s1[k] == t1[5]);
            assert(t1[5] == bool_str(d1)[0]);
            assert('_' == 'f');
            assert(false);
        }
    }
    assert(q1.len() == q2.len());
    assert forall|i: int| 0 <= i < q1.len() implies q1[i] == q2[i] by {
        assert(s1[i] == q1[i]);
        assert(s2[i] == q2[i]);
    }
    assert(q1 =~= q2);
}

/// Cache-key injectivity: two list queries produce the same cache key only
/// when all five parameters agree; changing any one parameter changes the
/// key. Together with the exact contract of [`build_cache_key`] (identical
/// queries always produce the identical key) this pins the key policy down.
pub proof fn lemma_list_cache_key_injective(
    cat1: int,
    limit1: int,
    offset1: int,
    query1: Seq<char>,
    dig1: bool,
    cat2: int,
    limit2: int,
    offset2: int,
    query2: Seq<char>,
    dig2: bool,
)
    requires
        spec_list_cache_key(cat1, limit1, offset1, query1, dig1) == spec_list_cache_key(
            cat2,
            limit2,
            offset2,
            query2,
            dig2,
        ),
    ensures
        cat1 == cat2,
        limit1 == limit2,
        offset1 == offset2,
        query1 == query2,
        dig1 == dig2,
{
    reveal_strlit("products:cat_");
    reveal_strlit(":limit_");
    reveal_strlit(":offset_");
    reveal_strlit(":q_");
    let c1 = dec_int(cat1) + (":limit_"@ + (dec_int(limit1) + (":offset_"@ + (dec_int(offset1) + (
    ":q_"@ + (query1 + (":dig_"@ + bool_str(dig1))))))));
    let c2 = dec_int(cat2) + (":limit_"@ + (dec_int(limit2) + (":offset_"@ + (dec_int(offset2) + (
    ":q_"@ + (query2 + (":dig_"@ + bool_str(dig2))))))));
    lemma_prefix_cancel("products:cat_"@, c1, c2);
    let l1 = ":limit_"@ + (dec_int(limit1) + (":offset_"@ + (dec_int(offset1) + (":q_"@ + (query1
        + (":dig_"@ + bool_str(dig1)))))));
    let l2 = ":limit_"@ + (dec_int(limit2) + (":offset_"@ + (dec_int(offset2) + (":q_"@ + (query2
        + (":dig_"@ + bool_str(dig2)))))));
    assert(l1[0] == ':' && l2[0] == ':');
    lemma_key_field(cat1, l1, cat2, l2);
    let m1 = dec_int(limit1) + (":offset_"@ + (dec_int(offset1) + (":q_"@ + (query1 + (":dig_"@
        + bool_str(dig1))))));
    let m2 = dec_int(limit2) + (":offset_"@ + (dec_int(offset2) + (":q_"@ + (query2 + (":dig_"@
        + bool_str(dig2))))));
    lemma_prefix_cancel(":limit_"@, m1, m2);
    let o1 = ":offset_"@ + (dec_int(offset1) + (":q_"@ + (query1 + (":dig_"@ + bool_str(dig1)))));
    let o2 = ":offset_"@ + (dec_int(offset2) + (":q_"@ + (query2 + (":dig_"@ + bool_str(dig2)))));
    assert(o1[0] == ':' && o2[0] == ':');
    lemma_key_field(limit1, o1, limit2, o2);
    let p1 = dec_int(offset1) + (":q_"@ + (query1 + (":dig_"@ + bool_str(dig1))));
    let p2 = dec_int(offset2) + (":q_"@ + (query2 + (":dig_"@ + bool_str(dig2))));
    lemma_prefix_cancel(":offset_"@, p1, p2);
    let t1 = ":q_"@ + (query1 + (":dig_"@ + bool_str(dig1)));
    let t2 = ":q_"@ + (query2 + (":dig_"@ + bool_str(dig2)));
    assert(t1[0] == ':' && t2[0] == ':');
    lemma_key_field(offset1, t1, offset2, t2);
    lemma_prefix_cancel(":q_"@, query1 + (":dig_"@ + bool_str(dig1)), query2 + (":dig_"@
        + bool_str(dig2)));
    lemma_key_tail(query1, dig1, query2, dig2);
}

} // verus!
