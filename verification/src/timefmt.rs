//! Timestamps. The model keeps time as whole seconds since the Unix epoch;
//! the two textual renderings that appear on the wire are done by chrono and
//! named here, since they are functions of the timestamp alone.

use vstd::prelude::*;

verus! {

/// The `%Y-%m-%d %H:%M:%S UTC` rendering of a timestamp (empty for one that
/// chrono cannot represent).
pub uninterp spec fn utc_label_of(ts: i64) -> Seq<char>;

/// The RFC 3339 rendering of a timestamp with a `Z` suffix (empty for one
/// that chrono cannot represent).
pub uninterp spec fn rfc3339_of(ts: i64) -> Seq<char>;

/// Relies on chrono's `Utc::now`: the wall clock as seconds since the Unix
/// epoch. Nothing is promised of the clock's reading.
#[verifier::external_body]
fn now_utc_seconds() -> i64 {
    chrono::Utc::now().timestamp()
}

/// Relies on chrono's `DateTime::from_timestamp` and `format`: renders a
/// timestamp as `%Y-%m-%d %H:%M:%S UTC`; the rendering depends on the
/// timestamp alone.
#[verifier::external_body]
pub fn format_utc_label(ts: i64) -> (r: String)
    ensures
        r@ == utc_label_of(ts),
{
    match chrono::DateTime::from_timestamp(ts, 0) {
        Some(dt) => dt.format("%Y-%m-%d %H:%M:%S UTC").to_string(),
        None => String::new(),
    }
}

/// Relies on chrono's `DateTime::from_timestamp` and `to_rfc3339_opts`:
/// renders a timestamp as RFC 3339 with whole seconds and a `Z` suffix, the
/// form chrono's serializers use for whole-second instants; the rendering
/// depends on the timestamp alone.
#[verifier::external_body]
pub fn format_rfc3339(ts: i64) -> (r: String)
    ensures
        r@ == rfc3339_of(ts),
{
    match chrono::DateTime::from_timestamp(ts, 0) {
        Some(dt) => dt.to_rfc3339_opts(chrono::SecondsFormat::Secs, true),
        None => String::new(),
    }
}

/// The wall clock, clamped to the epoch: the tracker's timestamps are never
/// negative.
pub fn current_time() -> (r: i64)
    ensures
        0 <= r,
{
    let t = now_utc_seconds();
    if t < 0 {
        0
    } else {
        t
    }
}

} // verus!
