//! Token-bucket rate limiting.
//!
//! A [`RateBucket`] holds up to `capacity` tokens and refills at
//! `refill_rate` tokens per second. Refill happens lazily when the bucket is
//! checked, never by a background timer. A successful check consumes exactly
//! one token; a failed check leaves the bucket completely unchanged.
//!
//! Time is measured in nanoseconds from an arbitrary monotonic origin that
//! the caller supplies, and the token count is kept in "nano-tokens"
//! (`NANOS_PER_SEC` nano-tokens per token), so refill arithmetic is exact:
//! one elapsed nanosecond adds `refill_rate` nano-tokens.

use vstd::prelude::*;

verus! {

/// Nanoseconds per second; also the number of nano-tokens in one token.
pub const NANOS_PER_SEC: u64 = 1_000_000_000;

/// The outcome of an admission check. `Reject` carries the retry hint that
/// is surfaced to the client: the minimum wait until the next token becomes
/// available, rounded up to whole seconds, never less than one second.
#[derive(Clone, Copy, PartialEq, Eq, Structural, Debug)]
pub enum Decision {
    Admit,
    Reject { retry_after_secs: u64 },
}

/// A token bucket for one limiter scope.
#[derive(Clone, Copy, PartialEq, Eq, Structural, Debug)]
pub struct RateBucket {
    /// Burst size in whole tokens; at least 1.
    pub capacity: u32,
    /// Refill rate in tokens per second; at least 1.
    pub refill_rate: u32,
    /// Current content in nano-tokens; never exceeds the capacity.
    pub nano_tokens: u64,
    /// Time of the last committed refill, in nanoseconds.
    pub last_refill_ns: u64,
}

impl RateBucket {
    /// Capacity expressed in nano-tokens.
    pub open spec fn cap_nano_tokens(self) -> int {
        self.capacity as int * NANOS_PER_SEC as int
    }

    /// Well-formedness: positive quota and the token count within capacity.
    pub open spec fn wf(self) -> bool {
        &&& 1 <= self.capacity
        &&& 1 <= self.refill_rate
        &&& self.nano_tokens as int <= self.cap_nano_tokens()
    }

    /// Nanoseconds elapsed since the last committed refill. A clock reading
    /// older than the last refill counts as zero elapsed time.
    pub open spec fn elapsed_ns(self, now_ns: u64) -> int {
        if now_ns > self.last_refill_ns {
            now_ns - self.last_refill_ns
        } else {
            0
        }
    }

    /// Nano-tokens available at `now_ns` after the lazy refill:
    /// `min(capacity, tokens + elapsed * refill_rate)`.
    pub open spec fn available_nano_tokens(self, now_ns: u64) -> int {
        let refilled = self.nano_tokens + self.elapsed_ns(now_ns) * (self.refill_rate as int);
        if refilled <= self.cap_nano_tokens() {
            refilled
        } else {
            self.cap_nano_tokens()
        }
    }

    /// Whether a check at `now_ns` succeeds: at least one whole token.
    pub open spec fn admits(self, now_ns: u64) -> bool {
        self.available_nano_tokens(now_ns) >= NANOS_PER_SEC
    }

    /// The bucket after a successful check at `now_ns`: the refill is
    /// committed and exactly one token is consumed.
    pub open spec fn after_admit(self, now_ns: u64) -> RateBucket {
        RateBucket {
            nano_tokens: (self.available_nano_tokens(now_ns) - NANOS_PER_SEC) as u64,
            last_refill_ns: now_ns,
            ..self
        }
    }

    /// Retry hint for a failed check: the wait until one whole token has
    /// accrued, rounded up to whole seconds.
    pub open spec fn retry_after_secs(self, now_ns: u64) -> int {
        let deficit = NANOS_PER_SEC - self.available_nano_tokens(now_ns);
        let wait_ns = (deficit + self.refill_rate - 1) / (self.refill_rate as int);
        (wait_ns + NANOS_PER_SEC - 1) / (NANOS_PER_SEC as int)
    }

    /// A full bucket whose last refill is `now_ns`.
    pub open spec fn full(capacity: u32, refill_rate: u32, now_ns: u64) -> RateBucket {
        RateBucket {
            capacity,
            refill_rate,
            nano_tokens: (capacity as int * NANOS_PER_SEC as int) as u64,
            last_refill_ns: now_ns,
        }
    }

    /// Creates a bucket at full capacity.
    pub fn new(capacity: u32, refill_rate: u32, now_ns: u64) -> (b: RateBucket)
        requires
            1 <= capacity,
            1 <= refill_rate,
        ensures
            b == RateBucket::full(capacity, refill_rate, now_ns),
            b.wf(),
    {
        proof {
            assert((capacity as int) * (NANOS_PER_SEC as int) < (u64::MAX as int)) by (nonlinear_arith)
                requires
                    capacity <= u32::MAX,
            ;
        }
        RateBucket {
            capacity,
            refill_rate,
            nano_tokens: (capacity as u64) * NANOS_PER_SEC,
            last_refill_ns: now_ns,
        }
    }

    /// One admission check at `now_ns`.
    ///
    /// On success the refill is committed and one token is consumed; on
    /// failure the bucket is left untouched (no partial consumption) and the
    /// decision carries the retry hint, which is always at least one second.
    pub fn check(&mut self, now_ns: u64) -> (d: Decision)
        requires
            old(self).wf(),
        ensures
            final(self).wf(),
            d is Admit <==> old(self).admits(now_ns),
            old(self).admits(now_ns) ==> *final(self) == old(self).after_admit(now_ns),
            !old(self).admits(now_ns) ==> *final(self) == *old(self) && d == (Decision::Reject {
                retry_after_secs: old(self).retry_after_secs(now_ns) as u64,
            }),
            !old(self).admits(now_ns) ==> 1 <= old(self).retry_after_secs(now_ns) <= NANOS_PER_SEC,
    {
        proof {
            assert((self.capacity as int) * (NANOS_PER_SEC as int) < (u64::MAX as int))
                by (nonlinear_arith)
                requires
                    self.capacity <= u32::MAX,
            ;
        }
        let cap_nanos: u64 = (self.capacity as u64) * NANOS_PER_SEC;
        let elapsed: u64 = if now_ns > self.last_refill_ns {
            now_ns - self.last_refill_ns
        } else {
            0
        };
        proof {
            assert(elapsed as int * (self.refill_rate as int) <= u64::MAX as int * u32::MAX as int)
                by (nonlinear_arith)
                requires
                    elapsed <= u64::MAX,
                    self.refill_rate <= u32::MAX,
            ;
        }
        let refilled: u128 = (self.nano_tokens as u128) + (elapsed as u128) * (self.refill_rate
            as u128);
        let available: u64 = if refilled >= (cap_nanos as u128) {
            cap_nanos
        } else {
            refilled as u64
        };
        assert(available as int == self.available_nano_tokens(now_ns));
        if available >= NANOS_PER_SEC {
            self.nano_tokens = available - NANOS_PER_SEC;
            self.last_refill_ns = now_ns;
            Decision::Admit
        } else {
            let deficit: u64 = NANOS_PER_SEC - available;
            let rate: u64 = self.refill_rate as u64;
            let wait_ns: u64 = (deficit + (rate - 1)) / rate;
            proof {
                assert((deficit + (rate - 1)) as int / rate as int >= 1) by (nonlinear_arith)
                    requires
                        deficit >= 1,
                        rate >= 1,
                ;
                assert((deficit + (rate - 1)) as int / rate as int <= deficit as int)
                    by (nonlinear_arith)
                    requires
                        deficit >= 1,
                        rate >= 1,
                ;
            }
            let retry: u64 = (wait_ns + (NANOS_PER_SEC - 1)) / NANOS_PER_SEC;
            Decision::Reject { retry_after_secs: retry }
        }
    }
}

/// Whether `k` consecutive checks, all at the same instant `now_ns`, all
/// succeed, each one consuming a token from the bucket the previous one left.
pub open spec fn admits_consecutively(b: RateBucket, now_ns: u64, k: nat) -> bool
    decreases k,
{
    if k == 0 {
        true
    } else {
        b.admits(now_ns) && admits_consecutively(b.after_admit(now_ns), now_ns, (k - 1) as nat)
    }
}

/// With zero elapsed time, `k` consecutive checks succeed exactly when the
/// bucket holds at least `k` whole tokens.
pub proof fn lemma_same_instant_admits(b: RateBucket, now_ns: u64, k: nat)
    requires
        b.wf(),
        b.last_refill_ns == now_ns,
    ensures
        admits_consecutively(b, now_ns, k) <==> k * NANOS_PER_SEC as int <= b.nano_tokens as int,
    decreases k,
{
    if k > 0 {
        if b.admits(now_ns) {
            lemma_same_instant_admits(b.after_admit(now_ns), now_ns, (k - 1) as nat);
        }
        assert(k * NANOS_PER_SEC as int == (k - 1) * NANOS_PER_SEC as int + NANOS_PER_SEC as int)
            by (nonlinear_arith);
    }
}

/// Burst bound: a bucket created with capacity `C` admits exactly `C`
/// consecutive checks at one instant; the `C + 1`-th check fails.
pub proof fn lemma_burst_capacity(capacity: u32, refill_rate: u32, now_ns: u64)
    requires
        1 <= capacity,
        1 <= refill_rate,
    ensures
        admits_consecutively(
            RateBucket::full(capacity, refill_rate, now_ns),
            now_ns,
            capacity as nat,
        ),
        !admits_consecutively(
            RateBucket::full(capacity, refill_rate, now_ns),
            now_ns,
            capacity as nat + 1,
        ),
{
    let b = RateBucket::full(capacity, refill_rate, now_ns);
    assert((capacity as int) * (NANOS_PER_SEC as int) < (u64::MAX as int)) by (nonlinear_arith)
        requires
            capacity <= u32::MAX,
    ;
    assert(b.nano_tokens as int == capacity as int * NANOS_PER_SEC as int);
    lemma_same_instant_admits(b, now_ns, capacity as nat);
    lemma_same_instant_admits(b, now_ns, capacity as nat + 1);
    assert((capacity as nat + 1) * NANOS_PER_SEC as int > capacity as int * NANOS_PER_SEC as int)
        by (nonlinear_arith);
}

/// A bucket untouched for a full refill window has refilled completely: a
/// check finds it exactly as full as a freshly created one. Evicting such a
/// bucket therefore changes no future decision.
pub proof fn lemma_idle_bucket_is_full(b: RateBucket, now_ns: u64)
    requires
        b.wf(),
        b.elapsed_ns(now_ns) * (b.refill_rate as int) >= b.cap_nano_tokens(),
    ensures
        b.available_nano_tokens(now_ns) == b.cap_nano_tokens(),
{
}

/// Monotonic recovery: once at least `1 / refill_rate` seconds have passed
/// after a failed check (stated in nanoseconds as
/// `(retry_ns - fail_ns) * refill_rate >= NANOS_PER_SEC`), the unchanged
/// bucket admits at least one more request.
pub proof fn lemma_recovery(b: RateBucket, fail_ns: u64, retry_ns: u64)
    requires
        b.wf(),
        b.last_refill_ns <= fail_ns <= retry_ns,
        !b.admits(fail_ns),
        (retry_ns - fail_ns) * (b.refill_rate as int) >= NANOS_PER_SEC,
    ensures
        b.admits(retry_ns),
{
    assert((retry_ns - b.last_refill_ns) * (b.refill_rate as int) >= (retry_ns - fail_ns) * (
    b.refill_rate as int)) by (nonlinear_arith)
        requires
            b.last_refill_ns <= fail_ns <= retry_ns,
            b.refill_rate >= 1,
    ;
    assert(b.cap_nano_tokens() >= NANOS_PER_SEC as int) by (nonlinear_arith)
        requires
            b.capacity >= 1,
    ;
    assert(b.elapsed_ns(retry_ns) == retry_ns - b.last_refill_ns || retry_ns == b.last_refill_ns);
}

} // verus!
