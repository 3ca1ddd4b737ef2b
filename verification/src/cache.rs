//! Cache-aside plumbing shared by the read-through endpoints.
//!
//! The expiring key/value store itself is external; callers perform the I/O
//! and report what a read produced as a [`CacheRead`]. The store is never on
//! the critical path for correctness: everything short of a decoded value
//! degrades to a miss, never to an error.

use vstd::prelude::*;

verus! {

/// What a cache read produced, as the caller saw it: a value that decoded,
/// a key that was absent, a stored value that failed to decode as the
/// expected type, or a store that could not be reached (no connection, or a
/// timeout).
pub enum CacheRead<T> {
    Decoded(T),
    Absent,
    Malformed,
    Unavailable,
}

/// The value of a cache read: `Some` exactly for a decoded value. Absence,
/// a stale or incompatible entry that fails to decode, and an unreachable
/// store all degrade to a miss (`None`); none of them is an error.
pub fn cached_value<T>(read: CacheRead<T>) -> (r: Option<T>)
    ensures
        r == match read {
            CacheRead::Decoded(v) => Some(v),
            CacheRead::Absent => None::<T>,
            CacheRead::Malformed => None::<T>,
            CacheRead::Unavailable => None::<T>,
        },
{
    match read {
        CacheRead::Decoded(v) => Some(v),
        CacheRead::Absent => None,
        CacheRead::Malformed => None,
        CacheRead::Unavailable => None,
    }
}

/// Whether a cache read counts as a hit, for observability.
pub fn is_cache_hit<T>(read: &CacheRead<T>) -> (r: bool)
    ensures
        r == (read is Decoded),
{
    match read {
        CacheRead::Decoded(_) => true,
        _ => false,
    }
}

} // verus!
