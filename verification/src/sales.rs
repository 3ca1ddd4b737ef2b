//! Sales records: a sale value carries a fresh identifier, its creation
//! time and the sum; a request becomes a sale only when a sum was given.

use vstd::prelude::*;

verus! {

/// One recorded sale.
#[derive(Debug, Clone)]
pub struct Sale {
    /// A fresh identifier in the hyphenated UUID form (36 characters).
    pub id: String,
    /// Creation time in whole seconds since the Unix epoch.
    pub created_at: i64,
    pub sum: i32,
}

/// The body of a sale request; the sum is optional.
#[derive(Debug, Clone)]
pub struct SaleRequest {
    pub sum: Option<i32>,
}

/// Relies on uuid::Uuid::new_v4 and its display form: a random version-4
/// UUID rendered hyphenated, which is always 36 characters; the value
/// depends on the process's randomness source, so nothing more is promised.
#[verifier::external_body]
fn fresh_sale_id() -> (r: String)
    ensures
        r@.len() == 36,
{
    uuid::Uuid::new_v4().to_string()
}

/// Relies on chrono::Utc::now: the current time in whole seconds since the
/// Unix epoch; the value depends on the clock, so nothing is promised of it.
#[verifier::external_body]
fn unix_now_seconds() -> (r: i64) {
    chrono::Utc::now().timestamp()
}

impl Sale {
    /// A sale of `sum`, stamped with a fresh identifier and the current
    /// time.
    pub fn new(sum: i32) -> (s: Sale)
        ensures
            s.sum == sum,
            s.id@.len() == 36,
    {
        Sale { id: fresh_sale_id(), created_at: unix_now_seconds(), sum }
    }
}

impl SaleRequest {
    /// A sale from this request: one is made exactly when a sum was given,
    /// and it carries that sum.
    pub fn to_sale(&self) -> (r: Option<Sale>)
        ensures
            match self.sum {
                Some(v) => r matches Some(s) && s.sum == v && s.id@.len() == 36,
                None => r is None,
            },
    {
        match self.sum {
            Some(v) => Some(Sale::new(v)),
            None => None,
        }
    }
}

} // verus!
