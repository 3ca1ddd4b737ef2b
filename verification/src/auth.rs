//! The slice of authentication that the catalog layer needs: reading a
//! bearer credential out of an authorization header, verifying it, and
//! validating a login at registration time.
//!
//! Absence or invalidity of a credential is never an error here: it only
//! means that no user identity is known, and the detail endpoint then
//! applies no exclusion.

use crate::text::str_starts_with;
use vstd::prelude::*;
use vstd::string::StrSliceExecFns;

verus! {

/// The claims carried by a verified token: the subject (the user's login)
/// and the expiry as seconds since the Unix epoch.
#[derive(Debug, Clone)]
pub struct Claims {
    pub sub: String,
    pub exp: usize,
}

/// Relies on jsonwebtoken::decode with the default validation: the token's
/// signature is checked against `secret` and its expiry against the clock,
/// so the outcome depends on the current time and nothing is promised of
/// it; `None` stands for any failure.
#[verifier::external_body]
pub fn verify_jwt(token: &str, secret: &[u8]) -> (r: Option<Claims>) {
    let key = jsonwebtoken::DecodingKey::from_secret(secret);
    let validation = jsonwebtoken::Validation::default();
    let data = jsonwebtoken::decode::<serde_json::Value>(token, &key, &validation).ok()?;
    let sub = data.claims.get("sub")?.as_str()?.to_string();
    let exp = data.claims.get("exp")?.as_u64()? as usize;
    Some(Claims { sub, exp })
}

/// The token part of an authorization header: the remainder after the
/// `"Bearer "` scheme prefix, or nothing when the scheme is absent.
pub fn bearer_token<'a>(header: &'a str) -> (r: Option<&'a str>)
    ensures
        match r {
            Some(t) => "Bearer "@.is_prefix_of(header@) && t@ == header@.subrange(
                7,
                header@.len() as int,
            ),
            None => !"Bearer "@.is_prefix_of(header@),
        },
{
    proof {
        reveal_strlit("Bearer ");
    }
    if str_starts_with(header, "Bearer ") {
        let n = header.unicode_len();
        Some(header.substring_char(7, n))
    } else {
        None
    }
}

/// Whether `c` is an ASCII letter or digit.
pub open spec fn is_ascii_alphanumeric_char(c: char) -> bool {
    ('0' <= c && c <= '9') || ('a' <= c && c <= 'z') || ('A' <= c && c <= 'Z')
}

/// Whether a login consists of ASCII letters and digits only, as required
/// at registration.
pub fn valid_login(login: &str) -> (r: bool)
    ensures
        r == forall|i: int|
            0 <= i < login@.len() ==> is_ascii_alphanumeric_char(#[trigger] login@[i]),
{
    let n = login.unicode_len();
    let mut i: usize = 0;
    while i < n
        invariant
            i <= n,
            n == login@.len(),
            forall|j: int| 0 <= j < i ==> is_ascii_alphanumeric_char(#[trigger] login@[j]),
        decreases n - i,
    {
        let c = login.get_char(i);
        let ok = ('0' <= c && c <= '9') || ('a' <= c && c <= 'z') || ('A' <= c && c <= 'Z');
        if !ok {
            return false;
        }
        i = i + 1;
    }
    true
}

} // verus!
