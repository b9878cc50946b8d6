//! The timestamp collaborator: validation and normalization of RFC 3339
//! date-times through chrono.

use vstd::prelude::*;

verus! {

/// What normalizing an RFC 3339 timestamp yields: the same instant as
/// RFC 3339 text in UTC, or nothing when the text is not an RFC 3339
/// date-time. The result depends on the text alone.
pub uninterp spec fn utc_norm(s: Seq<char>) -> Option<Seq<char>>;

/// Relies on chrono's `DateTime::parse_from_rfc3339`, `with_timezone`
/// and `to_rfc3339`: parsing succeeds exactly on RFC 3339 date-times,
/// the conversion to `Utc` keeps the instant, and both steps depend on
/// the text alone. Nothing more is claimed of the produced text: near
/// the edges of the four-digit year range, `to_rfc3339` can emit a
/// signed year that `parse_from_rfc3339` would not accept back.
#[verifier::external_body]
pub fn normalize_timestamp(s: &str) -> (r: Option<String>)
    ensures
        r is Some <==> utc_norm(s@) is Some,
        r matches Some(t) ==> utc_norm(s@) == Some(t@),
{
    match chrono::DateTime::parse_from_rfc3339(s) {
        Ok(dt) => Some(dt.with_timezone(&chrono::Utc).to_rfc3339()),
        Err(_) => None,
    }
}

} // verus!
