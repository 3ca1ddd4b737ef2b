//! Client identity extraction.
//!
//! A request's rate-limiting key is derived from, in priority order: the
//! first comma-separated entry of the forwarded-for header (trimmed), the
//! real-IP header verbatim, or the transport-level peer address with any
//! trailing `:port` suffix removed; when none is available every client
//! shares the sentinel key `"unknown"`.
//!
//! Trusting proxy headers over the raw peer address is a deliberate trust
//! decision: a deployment without a trusted proxy in front that strips or
//! overwrites client-supplied forwarded headers must not rely on them for
//! security-sensitive limiting.

use crate::text::{cut_at_char, prefix_before, trim, trimmed};
use vstd::prelude::*;
use vstd::string::StringExecFns;

verus! {

/// The client key for a request, from the forwarded-for header, the real-IP
/// header, or the peer address, in that order of trust.
///
/// The caller passes each source as it saw it: `None` for a header that is
/// absent (or not readable as text) and `None` for a missing peer address.
pub fn extract_client_ip(
    forwarded_for: Option<&str>,
    real_ip: Option<&str>,
    peer_addr: Option<&str>,
) -> (key: String)
    ensures
        forwarded_for matches Some(f) ==> key@ == trimmed(prefix_before(f@, ',')),
        forwarded_for is None ==> (real_ip matches Some(r) ==> key@ == r@),
        forwarded_for is None && real_ip is None ==> (peer_addr matches Some(p) ==> key@
            == prefix_before(p@, ':')),
        forwarded_for is None && real_ip is None && peer_addr is None ==> key@ == "unknown"@,
{
    match forwarded_for {
        Some(f) => {
            let first = cut_at_char(f, ',');
            String::from_str(trim(first))
        },
        None => match real_ip {
            Some(r) => String::from_str(r),
            None => match peer_addr {
                Some(p) => String::from_str(cut_at_char(p, ':')),
                None => String::from_str("unknown"),
            },
        },
    }
}

} // verus!
