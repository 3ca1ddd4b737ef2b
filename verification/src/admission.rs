//! Admission control.
//!
//! An [`AdmissionController`] gates every request through zero, one or two
//! token-bucket checks before it reaches business logic:
//!
//! 1. a path that starts with a whitelisted prefix is admitted immediately,
//!    with no limiter state read or written;
//! 2. an optional global bucket is checked next; if it rejects, the per-key
//!    limiter is not consulted and no state changes at all;
//! 3. an optional per-client bucket (created at full capacity on the first
//!    sighting of a key) is checked last.
//!
//! A rejection is terminal for the request and carries a retry hint in whole
//! seconds; capacity exhaustion is a normal outcome, never an error of the
//! controller itself. Quotas are requests per second, with burst capacity
//! equal to the rate.

use crate::bucket::{Decision, RateBucket};
use crate::text::{str_eq, str_starts_with};
use vstd::prelude::*;
use vstd::std_specs::vec::vec_index_mut;
use vstd::string::StringExecFns;

verus! {

/// Index of the first per-key entry whose key reads `key`, or `-1`.
pub open spec fn find_entry(entries: Seq<(String, RateBucket)>, key: Seq<char>) -> int
    decreases entries.len(),
{
    if entries.len() == 0 {
        -1
    } else if entries[0].0@ == key {
        0
    } else {
        let r = find_entry(entries.subrange(1, entries.len() as int), key);
        if r == -1 {
            -1
        } else {
            r + 1
        }
    }
}

/// `find_entry` finds exactly the first entry carrying `key`.
pub proof fn lemma_find_entry(entries: Seq<(String, RateBucket)>, key: Seq<char>)
    ensures
        find_entry(entries, key) == -1 ==> forall|i: int|
            0 <= i < entries.len() ==> (#[trigger] entries[i]).0@ != key,
        find_entry(entries, key) != -1 ==> {
            let r = find_entry(entries, key);
            &&& 0 <= r < entries.len()
            &&& entries[r].0@ == key
            &&& forall|j: int| 0 <= j < r ==> (#[trigger] entries[j]).0@ != key
        },
    decreases entries.len(),
{
    if entries.len() > 0 && entries[0].0@ != key {
        let t = entries.subrange(1, entries.len() as int);
        lemma_find_entry(t, key);
        assert(forall|i: int| 1 <= i < entries.len() ==> #[trigger] entries[i] == t[i - 1]);
    }
}

/// A scan that saw no match up to a match at `i` pins `find_entry` down.
pub proof fn lemma_find_entry_witness(entries: Seq<(String, RateBucket)>, key: Seq<char>, i: int)
    requires
        0 <= i < entries.len(),
        entries[i].0@ == key,
        forall|j: int| 0 <= j < i ==> (#[trigger] entries[j]).0@ != key,
    ensures
        find_entry(entries, key) == i,
    decreases entries.len(),
{
    if i > 0 {
        let t = entries.subrange(1, entries.len() as int);
        assert(forall|j: int| 0 <= j < i - 1 ==> #[trigger] t[j] == entries[j + 1]);
        lemma_find_entry_witness(t, key, i - 1);
    }
}

/// Whether a per-key entry was seen within the idle window: its bucket's
/// last committed refill lies at most `idle_window_ns` before `now_ns`.
pub open spec fn recently_seen(e: (String, RateBucket), now_ns: u64, idle_window_ns: u64) -> bool {
    e.1.elapsed_ns(now_ns) <= idle_window_ns
}

/// The per-key entries that survive an idle sweep at `now_ns`, in order.
pub open spec fn spec_evict(
    entries: Seq<(String, RateBucket)>,
    now_ns: u64,
    idle_window_ns: u64,
) -> Seq<(String, RateBucket)>
    decreases entries.len(),
{
    if entries.len() == 0 {
        entries
    } else {
        let rest = spec_evict(entries.drop_last(), now_ns, idle_window_ns);
        if recently_seen(entries.last(), now_ns, idle_window_ns) {
            rest.push(entries.last())
        } else {
            rest
        }
    }
}

/// Every entry that survives a sweep is an entry of the original sequence,
/// and it was recently seen.
proof fn lemma_spec_evict_sound(entries: Seq<(String, RateBucket)>, now_ns: u64, idle_window_ns: u64)
    ensures
        forall|j: int|
            0 <= j < spec_evict(entries, now_ns, idle_window_ns).len() ==> entries.contains(
                #[trigger] spec_evict(entries, now_ns, idle_window_ns)[j],
            ),
    decreases entries.len(),
{
    if entries.len() > 0 {
        let t = entries.drop_last();
        let rest = spec_evict(t, now_ns, idle_window_ns);
        lemma_spec_evict_sound(t, now_ns, idle_window_ns);
        assert forall|j: int|
            0 <= j < spec_evict(entries, now_ns, idle_window_ns).len() implies entries.contains(
            #[trigger] spec_evict(entries, now_ns, idle_window_ns)[j],
        ) by {
            if j < rest.len() {
                assert(rest[j] == spec_evict(entries, now_ns, idle_window_ns)[j]);
                let k = choose|k: int| 0 <= k < t.len() && t[k] == rest[j];
                assert(entries[k] == rest[j]);
            } else {
                assert(entries[entries.len() - 1] == spec_evict(
                    entries,
                    now_ns,
                    idle_window_ns,
                )[j]);
            }
        }
    }
}

/// A sweep of entries with pairwise-distinct keys keeps them distinct.
proof fn lemma_spec_evict_unique(
    entries: Seq<(String, RateBucket)>,
    now_ns: u64,
    idle_window_ns: u64,
)
    requires
        forall|i: int, j: int|
            0 <= i < j < entries.len() ==> (#[trigger] entries[i]).0@ != (
            #[trigger] entries[j]).0@,
    ensures
        forall|i: int, j: int|
            0 <= i < j < spec_evict(entries, now_ns, idle_window_ns).len() ==> (
            #[trigger] spec_evict(entries, now_ns, idle_window_ns)[i]).0@ != (#[trigger] spec_evict(
                entries,
                now_ns,
                idle_window_ns,
            )[j]).0@,
    decreases entries.len(),
{
    if entries.len() > 0 {
        let t = entries.drop_last();
        let rest = spec_evict(t, now_ns, idle_window_ns);
        assert(forall|i: int, j: int|
            0 <= i < j < t.len() ==> (#[trigger] t[i]).0@ != (#[trigger] t[j]).0@) by {
            assert(forall|i: int| 0 <= i < t.len() ==> t[i] == entries[i]);
        }
        lemma_spec_evict_unique(t, now_ns, idle_window_ns);
        lemma_spec_evict_sound(t, now_ns, idle_window_ns);
        if recently_seen(entries.last(), now_ns, idle_window_ns) {
            assert forall|i: int, j: int|
                0 <= i < j < spec_evict(entries, now_ns, idle_window_ns).len() implies (
            #[trigger] spec_evict(entries, now_ns, idle_window_ns)[i]).0@ != (#[trigger] spec_evict(
                entries,
                now_ns,
                idle_window_ns,
            )[j]).0@ by {
                if j == spec_evict(entries, now_ns, idle_window_ns).len() - 1 {
                    assert(spec_evict(entries, now_ns, idle_window_ns)[i] == rest[i]);
                    let k = choose|k: int| 0 <= k < t.len() && t[k] == rest[i];
                    assert(entries[k] == rest[i]);
                    assert(entries[k].0@ != entries.last().0@);
                } else {
                    assert(spec_evict(entries, now_ns, idle_window_ns)[i] == rest[i]);
                    assert(spec_evict(entries, now_ns, idle_window_ns)[j] == rest[j]);
                }
            }
        }
    }
}

/// Admission controller: optional global bucket, optional per-client-key
/// buckets, and a whitelist of exempt path prefixes.
pub struct AdmissionController {
    /// Bucket shared by all requests, if a global quota is configured.
    pub global: Option<RateBucket>,
    /// Per-client quota in requests per second, if configured.
    pub per_key_quota: Option<u32>,
    /// One bucket per client key, created lazily on first sighting.
    pub per_key: Vec<(String, RateBucket)>,
    /// Path prefixes exempt from admission control.
    pub whitelist: Vec<String>,
}

impl AdmissionController {
    /// Whether `path` starts with any whitelisted prefix.
    pub open spec fn whitelisted(self, path: Seq<char>) -> bool {
        exists|i: int|
            0 <= i < self.whitelist@.len() && (#[trigger] self.whitelist@[i])@.is_prefix_of(path)
    }

    /// No two per-key entries carry the same key.
    pub open spec fn keys_unique(self) -> bool {
        forall|i: int, j: int|
            0 <= i < j < self.per_key@.len() ==> (#[trigger] self.per_key@[i]).0@ != (
            #[trigger] self.per_key@[j]).0@
    }

    /// Well-formedness: positive quotas, every bucket within its capacity,
    /// per-key buckets carrying exactly the configured quota, unique keys,
    /// and no per-key entries unless a per-key quota is configured.
    pub open spec fn wf(self) -> bool {
        &&& match self.global {
            Some(g) => g.wf(),
            None => true,
        }
        &&& match self.per_key_quota {
            Some(q) => 1 <= q && (forall|i: int|
                0 <= i < self.per_key@.len() ==> {
                    let b = (#[trigger] self.per_key@[i]).1;
                    b.wf() && b.capacity == q && b.refill_rate == q
                }),
            None => self.per_key@.len() == 0,
        }
        &&& self.keys_unique()
    }

    /// Whether the global check (if any) succeeds at `now_ns`.
    pub open spec fn global_passes(self, now_ns: u64) -> bool {
        match self.global {
            None => true,
            Some(g) => g.admits(now_ns),
        }
    }

    /// The global bucket after a successful pass at `now_ns`.
    pub open spec fn global_after(self, now_ns: u64) -> Option<RateBucket> {
        match self.global {
            None => None,
            Some(g) => Some(g.after_admit(now_ns)),
        }
    }

    /// A controller with no per-key entries yet. `None` disables a scope;
    /// a quota is requests per second with burst capacity equal to the rate.
    pub fn new(global_quota: Option<u32>, per_key_quota: Option<u32>, whitelist: Vec<String>) -> (c:
        AdmissionController)
        requires
            global_quota matches Some(g) ==> 1 <= g,
            per_key_quota matches Some(q) ==> 1 <= q,
        ensures
            c.wf(),
            c.whitelist == whitelist,
            c.per_key_quota == per_key_quota,
            c.per_key@.len() == 0,
            c.global == match global_quota {
                None => None::<RateBucket>,
                Some(g) => Some(RateBucket::full(g, g, 0)),
            },
    {
        let global = match global_quota {
            None => None,
            Some(g) => Some(RateBucket::new(g, g, 0)),
        };
        AdmissionController { global, per_key_quota, per_key: Vec::new(), whitelist }
    }

    /// The default whitelist used by the convenience constructors.
    pub fn default_whitelist() -> (w: Vec<String>)
        ensures
            w@.len() == 3,
            w@[0]@ == "/ws/"@,
            w@[1]@ == "/metrics"@,
            w@[2]@ == "/health"@,
    {
        let mut w: Vec<String> = Vec::new();
        w.push(String::from_str("/ws/"));
        w.push(String::from_str("/metrics"));
        w.push(String::from_str("/health"));
        w
    }

    /// Per-client limiting only; a rate of zero disables the limiter.
    pub fn per_ip(requests_per_second: u32) -> (c: AdmissionController)
        ensures
            c.wf(),
            c.global is None,
            c.per_key_quota == if requests_per_second == 0 {
                None::<u32>
            } else {
                Some(requests_per_second)
            },
            c.per_key@.len() == 0,
    {
        let quota = if requests_per_second == 0 {
            None
        } else {
            Some(requests_per_second)
        };
        AdmissionController::new(None, quota, AdmissionController::default_whitelist())
    }

    /// Global limiting only; a rate of zero disables the limiter.
    pub fn global(requests_per_second: u32) -> (c: AdmissionController)
        ensures
            c.wf(),
            c.per_key_quota is None,
            c.per_key@.len() == 0,
            c.global == if requests_per_second == 0 {
                None::<RateBucket>
            } else {
                Some(RateBucket::full(requests_per_second, requests_per_second, 0))
            },
    {
        let quota = if requests_per_second == 0 {
            None
        } else {
            Some(requests_per_second)
        };
        AdmissionController::new(quota, None, AdmissionController::default_whitelist())
    }

    /// Global and per-client limiting together; zero disables a scope.
    pub fn both(global: u32, per_ip: u32) -> (c: AdmissionController)
        ensures
            c.wf(),
            c.per_key@.len() == 0,
            c.global == if global == 0 {
                None::<RateBucket>
            } else {
                Some(RateBucket::full(global, global, 0))
            },
            c.per_key_quota == if per_ip == 0 {
                None::<u32>
            } else {
                Some(per_ip)
            },
    {
        let gq = if global == 0 {
            None
        } else {
            Some(global)
        };
        let kq = if per_ip == 0 {
            None
        } else {
            Some(per_ip)
        };
        AdmissionController::new(gq, kq, AdmissionController::default_whitelist())
    }

    /// Whether `path` starts with a whitelisted prefix.
    pub fn path_whitelisted(&self, path: &str) -> (r: bool)
        ensures
            r == self.whitelisted(path@),
    {
        let n = self.whitelist.len();
        let mut i: usize = 0;
        while i < n
            invariant
                i <= n,
                n == self.whitelist@.len(),
                forall|j: int|
                    0 <= j < i ==> !(#[trigger] self.whitelist@[j])@.is_prefix_of(path@),
            decreases n - i,
        {
            if str_starts_with(path, self.whitelist[i].as_str()) {
                return true;
            }
            i = i + 1;
        }
        false
    }

    /// Evicts the per-key buckets of clients not seen for more than
    /// `idle_window_ns` nanoseconds, bounding the growth of the per-key
    /// map. For a window of at least `capacity / refill_rate` seconds this
    /// changes no future decision: a bucket idle that long has refilled
    /// completely ([`crate::bucket::lemma_idle_bucket_is_full`]), and a
    /// re-created bucket starts
    /// full, exactly as the evicted one would have been found.
    pub fn evict_idle(&mut self, now_ns: u64, idle_window_ns: u64)
        requires
            old(self).wf(),
        ensures
            final(self).wf(),
            final(self).global == old(self).global,
            final(self).per_key_quota == old(self).per_key_quota,
            final(self).whitelist == old(self).whitelist,
            final(self).per_key@ == spec_evict(old(self).per_key@, now_ns, idle_window_ns),
    {
        let ghost orig = self.per_key@;
        let mut kept: Vec<(String, RateBucket)> = Vec::new();
        let n = self.per_key.len();
        let mut i: usize = 0;
        proof {
            assert(orig.subrange(0, 0) =~= Seq::<(String, RateBucket)>::empty());
        }
        while i < n
            invariant
                i <= n,
                n == orig.len(),
                self.per_key@ == orig,
                kept@ == spec_evict(orig.subrange(0, i as int), now_ns, idle_window_ns),
            decreases n - i,
        {
            let entry = &self.per_key[i];
            let elapsed: u64 = if now_ns > entry.1.last_refill_ns {
                now_ns - entry.1.last_refill_ns
            } else {
                0
            };
            if elapsed <= idle_window_ns {
                kept.push((entry.0.clone(), entry.1));
                assert(kept@.last() == orig[i as int]);
            }
            proof {
                let done = orig.subrange(0, i + 1);
                assert(done.drop_last() =~= orig.subrange(0, i as int));
                assert(done.last() == orig[i as int]);
                assert(elapsed as int == orig[i as int].1.elapsed_ns(now_ns));
            }
            i = i + 1;
        }
        proof {
            assert(orig.subrange(0, n as int) =~= orig);
            lemma_spec_evict_unique(orig, now_ns, idle_window_ns);
            lemma_spec_evict_sound(orig, now_ns, idle_window_ns);
        }
        self.per_key = kept;
    }

    /// Index of the per-key bucket for `key`, if one exists.
    fn find_key(&self, key: &str) -> (r: Option<usize>)
        ensures
            match r {
                Some(i) => i < self.per_key@.len() && find_entry(self.per_key@, key@) == i,
                None => find_entry(self.per_key@, key@) == -1,
            },
    {
        let n = self.per_key.len();
        let mut i: usize = 0;
        while i < n
            invariant
                i <= n,
                n == self.per_key@.len(),
                forall|j: int| 0 <= j < i ==> (#[trigger] self.per_key@[j]).0@ != key@,
            decreases n - i,
        {
            if str_eq(self.per_key[i].0.as_str(), key) {
                proof {
                    lemma_find_entry_witness(self.per_key@, key@, i as int);
                }
                return Some(i);
            }
            i = i + 1;
        }
        proof {
            lemma_find_entry(self.per_key@, key@);
            if find_entry(self.per_key@, key@) != -1 {
                let r = find_entry(self.per_key@, key@);
                assert(self.per_key@[r].0@ != key@);
            }
        }
        None
    }

    /// Gate one request.
    ///
    /// A whitelisted path is admitted with no limiter state read or written.
    /// Otherwise the global bucket is checked first; a global rejection is
    /// returned without consulting — or mutating — anything else. Then the
    /// per-key bucket for `client_key` is checked, being created at full
    /// capacity on first sighting (so a first sighting always admits). A
    /// failed check never changes a bucket, and every rejection carries a
    /// retry hint of at least one second.
    pub fn decide(&mut self, path: &str, client_key: &str, now_ns: u64) -> (d: Decision)
        requires
            old(self).wf(),
        ensures
            final(self).wf(),
            final(self).whitelist == old(self).whitelist,
            final(self).per_key_quota == old(self).per_key_quota,
            old(self).whitelisted(path@) ==> d == Decision::Admit && *final(self) == *old(self),
            !old(self).whitelisted(path@) && !old(self).global_passes(now_ns) ==> *final(self)
                == *old(self) && (old(self).global matches Some(g) && d == (Decision::Reject {
                retry_after_secs: g.retry_after_secs(now_ns) as u64,
            })),
            !old(self).whitelisted(path@) && old(self).global_passes(now_ns) ==> final(self).global
                == old(self).global_after(now_ns),
            !old(self).whitelisted(path@) && old(self).global_passes(now_ns) ==> match old(
                self,
            ).per_key_quota {
                None => d == Decision::Admit && final(self).per_key@ == old(self).per_key@,
                Some(q) => {
                    let idx = find_entry(old(self).per_key@, client_key@);
                    if idx == -1 {
                        &&& d == Decision::Admit
                        &&& final(self).per_key@.len() == old(self).per_key@.len() + 1
                        &&& final(self).per_key@.subrange(0, old(self).per_key@.len() as int)
                            == old(self).per_key@
                        &&& final(self).per_key@.last().0@ == client_key@
                        &&& final(self).per_key@.last().1 == RateBucket::full(
                            q,
                            q,
                            now_ns,
                        ).after_admit(now_ns)
                    } else {
                        let kb = old(self).per_key@[idx].1;
                        if kb.admits(now_ns) {
                            &&& d == Decision::Admit
                            &&& final(self).per_key@ == old(self).per_key@.update(
                                idx,
                                (old(self).per_key@[idx].0, kb.after_admit(now_ns)),
                            )
                        } else {
                            &&& d == (Decision::Reject {
                                retry_after_secs: kb.retry_after_secs(now_ns) as u64,
                            })
                            &&& final(self).per_key@ == old(self).per_key@
                        }
                    }
                },
            },
            d matches Decision::Reject { retry_after_secs } ==> 1 <= retry_after_secs,
    {
        if self.path_whitelisted(path) {
            return Decision::Admit;
        }
        match &mut self.global {
            Some(g) => {
                let dg = g.check(now_ns);
                match dg {
                    Decision::Reject { retry_after_secs } => {
                        return Decision::Reject { retry_after_secs };
                    },
                    Decision::Admit => {},
                }
            },
            None => {},
        }
        let quota = self.per_key_quota;
        match quota {
            None => Decision::Admit,
            Some(q) => {
                match self.find_key(client_key) {
                    Some(i) => {
                        let ghost entries = self.per_key@;
                        let entry = vec_index_mut(&mut self.per_key, i);
                        let dk = entry.1.check(now_ns);
                        proof {
                            if !entries[i as int].1.admits(now_ns) {
                                assert(self.per_key@ =~= entries);
                            }
                        }
                        dk
                    },
                    None => {
                        let mut fresh = RateBucket::new(q, q, now_ns);
                        proof {
                            assert((q as int) * (crate::bucket::NANOS_PER_SEC as int)
                                >= crate::bucket::NANOS_PER_SEC as int) by (nonlinear_arith)
                                requires
                                    1 <= q,
                            ;
                        }
                        let dk = fresh.check(now_ns);
                        proof {
                            lemma_find_entry(self.per_key@, client_key@);
                        }
                        self.per_key.push((String::from_str(client_key), fresh));
                        Decision::Admit
                    },
                }
            },
        }
    }
}

} // verus!
