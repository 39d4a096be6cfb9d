//! The two calls into outside crates that the parser's logic needs. Each
//! result is a pure function of the text alone, so it is given a name that
//! the callers' contracts speak of; nothing more is assumed of it.

use vstd::prelude::*;

verus! {

/// The milliseconds since the Unix epoch that an RFC 3339 timestamp denotes,
/// or `None` where the text is not one.
pub uninterp spec fn rfc3339_epoch_millis(s: Seq<char>) -> Option<i64>;

/// Relies on chrono's `DateTime::parse_from_rfc3339` followed by
/// `DateTime::timestamp_millis`: both depend on the text alone.
#[verifier::external_body]
pub(crate) fn parse_rfc3339_millis(s: &str) -> (r: Option<i64>)
    ensures
        r == rfc3339_epoch_millis(s@),
{
    match chrono::DateTime::parse_from_rfc3339(s) {
        Ok(t) => Some(t.timestamp_millis()),
        Err(_) => None,
    }
}

/// Whether the text is an IPv4 or IPv6 literal in the form usiem accepts.
pub uninterp spec fn ip_literal(s: Seq<char>) -> bool;

/// Relies on usiem's `SiemIp::from_ip_str`: a classifier that depends on the
/// text alone.
#[verifier::external_body]
pub(crate) fn is_ip_literal(s: &str) -> (r: bool)
    ensures
        r == ip_literal(s@),
{
    usiem::events::ip::SiemIp::from_ip_str(s).is_ok()
}

} // verus!
