//! The platform list endpoint.
//!
//! The active-platform list is public, identical for every caller and slow
//! to change, so it is cached whole under one fixed key for a day. The
//! caller reads the cache through [`crate::cache::cached_value`], queries
//! the authoritative store on a miss, and writes the result back with
//! [`platforms_cache_ttl`].

use vstd::prelude::*;
use vstd::string::StringExecFns;

verus! {

/// One row of the platform list.
#[derive(Debug, Clone)]
pub struct PlatformItem {
    pub id: i32,
    pub abbreviation: String,
    pub name: String,
    pub generation: Option<i32>,
    pub total_games: i32,
}

/// The fixed cache key of the active-platform list.
pub fn platforms_cache_key() -> (key: String)
    ensures
        key@ == "platforms:active_list"@,
{
    String::from_str("platforms:active_list")
}

/// Time-to-live of the cached platform list, in seconds: one day.
pub fn platforms_cache_ttl() -> (ttl: u64)
    ensures
        ttl == 86400,
{
    86400
}

} // verus!
