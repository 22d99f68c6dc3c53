//! Timestamps of the `time` crate, carried through the domain entities.

use vstd::prelude::*;

verus! {

/// `time::OffsetDateTime`: a date and time with an offset, opaque here.
#[verifier::external_type_specification]
#[verifier::external_body]
pub struct ExOffsetDateTime(time::OffsetDateTime);

/// `Clone` of `time::OffsetDateTime`, a `Copy` type whose derived `clone`
/// returns the value itself.
pub assume_specification[ <time::OffsetDateTime as Clone>::clone ](d: &time::OffsetDateTime) -> (res: time::OffsetDateTime)
    ensures
        res == *d,
;

/// `time::OffsetDateTime::now_utc`: the current time in UTC. It depends on
/// the clock, so nothing is stated of it.
#[verifier::external_body]
pub(crate) fn now_utc() -> time::OffsetDateTime {
    time::OffsetDateTime::now_utc()
}

/// The Unix timestamp of -9999-01-01 00:00:00 UTC, the earliest moment a
/// `time::OffsetDateTime` holds.
pub const MIN_UNIX_TIMESTAMP: i64 = -377_705_116_800;
/// The Unix timestamp of 9999-12-31 23:59:59 UTC, the last whole second a
/// `time::OffsetDateTime` holds.
pub const MAX_UNIX_TIMESTAMP: i64 = 253_402_300_799;

/// The UTC date and time of a Unix timestamp, as
/// `time::OffsetDateTime::from_unix_timestamp` gives it (a function of the
/// timestamp alone; the calendar arithmetic is not written out here).
pub uninterp spec fn utc_at(timestamp: i64) -> time::OffsetDateTime;

/// `time::OffsetDateTime::from_unix_timestamp`: the UTC date and time of a
/// Unix timestamp, or `None` outside the dates the crate holds. Stated: what
/// comes back is [`utc_at`] of the timestamp, and it succeeds for every
/// timestamp from [`MIN_UNIX_TIMESTAMP`] to [`MAX_UNIX_TIMESTAMP`] (the
/// range of years -9999 to 9999; the `large-dates` feature only widens it).
#[verifier::external_body]
pub(crate) fn from_unix_timestamp(timestamp: i64) -> (r: Option<time::OffsetDateTime>)
    ensures
        MIN_UNIX_TIMESTAMP <= timestamp <= MAX_UNIX_TIMESTAMP ==> r is Some,
        r matches Some(t) ==> t == utc_at(timestamp),
{
    time::OffsetDateTime::from_unix_timestamp(timestamp).ok()
}

} // verus!
