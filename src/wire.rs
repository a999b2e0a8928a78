//! The calls into `reqwest`'s URL parser and `chrono` that the decoders rely on.
use vstd::prelude::*;

verus! {

/// Whether `Url::parse` accepts the text as an absolute URL.
pub uninterp spec fn url_parses(s: Seq<char>) -> bool;

/// The instant, as whole seconds since the Unix epoch and nanoseconds, that
/// chrono reads from an RFC 3339 text as a `DateTime<Utc>`.
pub uninterp spec fn utc_instant(s: Seq<char>) -> Option<(i64, u32)>;

/// Relies on `reqwest::Url::parse` (the `url` crate): `Ok` exactly when the
/// text is an absolute URL.
#[verifier::external_body]
pub(crate) fn url_is_valid(s: &str) -> (r: bool)
    ensures
        r == url_parses(s@),
{
    reqwest::Url::parse(s).is_ok()
}

/// Relies on chrono's `FromStr` for `DateTime<Utc>`, the parse that chrono's
/// serde support uses; the instant is read back with `timestamp` and
/// `timestamp_subsec_nanos`.
#[verifier::external_body]
pub(crate) fn parse_utc(s: &str) -> (r: Option<(i64, u32)>)
    ensures
        r == utc_instant(s@),
{
    s.parse::<chrono::DateTime<chrono::Utc>>().ok().map(|d| (d.timestamp(), d.timestamp_subsec_nanos()))
}

} // verus!
