//! Counters for admission and cache outcomes.
//!
//! The admission controller and the read-through layer emit exactly one
//! event per decision; these counters record them. An exporter (the
//! observability sink) reads the totals; its format is not this library's
//! concern. The counters saturate instead of wrapping.

use crate::bucket::Decision;
use vstd::prelude::*;

verus! {

/// `x` plus one, saturating at the largest `u64`.
pub open spec fn sat_inc(x: u64) -> int {
    if x < u64::MAX {
        x + 1
    } else {
        x as int
    }
}

/// Totals of admission decisions.
#[derive(Clone, Copy, PartialEq, Eq, Structural, Debug)]
pub struct AdmissionStats {
    pub admitted: u64,
    pub rejected: u64,
}

impl AdmissionStats {
    /// Fresh totals: nothing counted yet.
    pub fn new() -> (s: AdmissionStats)
        ensures
            s.admitted == 0,
            s.rejected == 0,
    {
        AdmissionStats { admitted: 0, rejected: 0 }
    }

    /// Counts one decision: exactly one of the two totals moves, by one.
    pub fn record(&mut self, d: &Decision)
        ensures
            d is Admit ==> final(self).admitted == sat_inc(old(self).admitted)
                && final(self).rejected == old(self).rejected,
            d is Reject ==> final(self).rejected == sat_inc(old(self).rejected)
                && final(self).admitted == old(self).admitted,
    {
        match d {
            Decision::Admit => {
                if self.admitted < u64::MAX {
                    self.admitted = self.admitted + 1;
                }
            },
            Decision::Reject { .. } => {
                if self.rejected < u64::MAX {
                    self.rejected = self.rejected + 1;
                }
            },
        }
    }
}

/// Totals of cache lookups.
#[derive(Clone, Copy, PartialEq, Eq, Structural, Debug)]
pub struct CacheStats {
    pub hits: u64,
    pub misses: u64,
}

impl CacheStats {
    /// Fresh totals: nothing counted yet.
    pub fn new() -> (s: CacheStats)
        ensures
            s.hits == 0,
            s.misses == 0,
    {
        CacheStats { hits: 0, misses: 0 }
    }

    /// Counts one lookup: exactly one of the two totals moves, by one.
    pub fn record(&mut self, hit: bool)
        ensures
            hit ==> final(self).hits == sat_inc(old(self).hits)
                && final(self).misses == old(self).misses,
            !hit ==> final(self).misses == sat_inc(old(self).misses)
                && final(self).hits == old(self).hits,
    {
        if hit {
            if self.hits < u64::MAX {
                self.hits = self.hits + 1;
            }
        } else {
            if self.misses < u64::MAX {
                self.misses = self.misses + 1;
            }
        }
    }
}

} // verus!
