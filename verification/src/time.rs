use chrono::{DateTime, TimeDelta, Utc};
use vstd::prelude::*;

verus! {

/// The instant from which a product counts its scan days: 1969-12-31T00:00:00Z,
/// in seconds since the Unix epoch.
pub const VALID_TIME_ORIGIN: i64 = -86_400;

/// The Unix timestamp of the instant `days` days and `seconds` seconds after `origin`.
pub open spec fn timestamp_of(origin: int, days: int, seconds: int) -> int {
    origin + days * 86_400 + seconds
}

/// chrono's `DateTime::from_timestamp`, `DateTime + TimeDelta` with `TimeDelta::days` and
/// `TimeDelta::seconds`, and `DateTime::timestamp`.
///
/// Taken on trust: counted in non-leap seconds since the Unix epoch, the instant that lies
/// `days` days and `seconds` seconds after `origin` has the timestamp
/// `origin + 86400 * days + seconds`. The origin is kept within a million million seconds
/// of the epoch, far inside the span of dates that chrono represents, so that no step
/// leaves that span.
#[verifier::external_body]
pub(crate) fn timestamp_after(origin: i64, days: i16, seconds: i32) -> (t: i64)
    requires
        -1_000_000_000_000 <= origin <= 1_000_000_000_000,
    ensures
        t == timestamp_of(origin as int, days as int, seconds as int),
{
    let start: DateTime<Utc> = DateTime::from_timestamp(origin, 0).unwrap();
    (start + TimeDelta::days(i64::from(days)) + TimeDelta::seconds(i64::from(seconds))).timestamp()
}

/// The whole minutes in a span of `seconds` seconds, counted towards zero.
pub open spec fn whole_minutes(seconds: int) -> int {
    if seconds >= 0 {
        seconds / 60
    } else {
        -((-seconds) / 60)
    }
}

/// chrono's `DateTime::from_timestamp`, the difference of two `DateTime` values, and
/// `TimeDelta::num_minutes`.
///
/// Taken on trust: where chrono represents both instants, the whole minutes from
/// `from` to `to` are the seconds between them divided by 60, rounded towards zero;
/// and it represents every instant within a million million seconds of the Unix epoch.
/// Where it does not represent one of them, there is no result.
#[verifier::external_body]
pub(crate) fn minutes_between(from: i64, to: i64) -> (m: Option<i64>)
    ensures
        m matches Some(v) ==> v == whole_minutes(to - from),
        -1_000_000_000_000 <= from <= 1_000_000_000_000 && -1_000_000_000_000 <= to
            <= 1_000_000_000_000 ==> m is Some,
{
    let start: DateTime<Utc> = DateTime::from_timestamp(from, 0)?;
    let end: DateTime<Utc> = DateTime::from_timestamp(to, 0)?;
    Some((end - start).num_minutes())
}

} // verus!
