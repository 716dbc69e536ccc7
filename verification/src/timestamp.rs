//! Points in time, and how a number names one.
use chrono::{TimeZone, Utc};
use vstd::prelude::*;

verus! {

/// A point in time: whole seconds since the Unix epoch, and nanoseconds on top. A leap second
/// shows as a billion nanoseconds or more.
#[derive(Clone, Copy, Debug, PartialEq, Eq, Structural)]
pub struct Timestamp {
    pub secs: i64,
    pub nanos: u32,
}

/// Unix timestamps below this one are in seconds.
pub const SEC_CUTOFF: i64 = 13569465600;

/// Unix timestamps from `SEC_CUTOFF` on and below this one are in milliseconds, later ones in
/// nanoseconds.
pub const MILLISEC_CUTOFF: i64 = 253402300800000;

/// The first second of the year -262143.
pub const MIN_SECS: i64 = -8334601228800;

/// The last second of the year 262142.
pub const MAX_SECS: i64 = 8210266876799;

/// Whether there is such a point in time: its year is within the calendar, and its nanoseconds
/// are below a second, or below two in the last second of a minute.
pub open spec fn is_instant(secs: i64, nanos: u32) -> bool {
    &&& MIN_SECS <= secs <= MAX_SECS
    &&& nanos < 1_000_000_000 || (nanos < 2_000_000_000 && secs as int % 60 == 59)
}

/// `chrono::TimeZone::timestamp_opt` of `chrono::Utc`, taken by `single`: the point in time so
/// many seconds and nanoseconds after the epoch, where the calendar has one.
#[verifier::external_body]
pub(crate) fn timestamp_opt(secs: i64, nanos: u32) -> (t: Option<Timestamp>)
    ensures
        t == if is_instant(secs, nanos) {
            Some(Timestamp { secs, nanos })
        } else {
            None
        },
{
    Utc.timestamp_opt(secs, nanos).single().map(
        |t| Timestamp { secs: t.timestamp(), nanos: t.timestamp_subsec_nanos() },
    )
}

/// `chrono::TimeZone::timestamp_millis_opt` of `chrono::Utc`, taken by `single`: the point in
/// time so many milliseconds after the epoch, where the calendar has one.
#[verifier::external_body]
pub(crate) fn timestamp_millis_opt(millis: i64) -> (t: Option<Timestamp>)
    ensures
        t == if MIN_SECS <= millis as int / 1000 <= MAX_SECS {
            Some(
                Timestamp {
                    secs: (millis as int / 1000) as i64,
                    nanos: ((millis as int % 1000) * 1_000_000) as u32,
                },
            )
        } else {
            None
        },
{
    Utc.timestamp_millis_opt(millis).single().map(
        |t| Timestamp { secs: t.timestamp(), nanos: t.timestamp_subsec_nanos() },
    )
}

/// `chrono::TimeZone::timestamp_nanos` of `chrono::Utc`: the point in time so many nanoseconds
/// after the epoch. There always is one.
#[verifier::external_body]
pub(crate) fn timestamp_nanos(nanos: i64) -> (t: Timestamp)
    ensures
        t.secs == nanos as int / 1_000_000_000,
        t.nanos == nanos as int % 1_000_000_000,
{
    let t = Utc.timestamp_nanos(nanos);
    Timestamp { secs: t.timestamp(), nanos: t.timestamp_subsec_nanos() }
}

/// `chrono::Utc::now`: the system's time, whatever that is. It is a point in time that the
/// calendar has; nothing more is said of it.
#[verifier::external_body]
pub(crate) fn utc_now() -> (t: Timestamp)
    ensures
        is_instant(t.secs, t.nanos),
{
    let t = Utc::now();
    Timestamp { secs: t.timestamp(), nanos: t.timestamp_subsec_nanos() }
}

/// Whether these can be readings of the clock, one after the other: points in time that the
/// calendar has.
pub open spec fn are_readings(clock: Seq<Timestamp>) -> bool {
    forall|i: int| 0 <= i < clock.len() ==> is_instant((#[trigger] clock[i]).secs, clock[i].nanos)
}

/// The point in time that a whole number names: in seconds, milliseconds or nanoseconds by its
/// size. Numbers below zero name none.
pub open spec fn timestamp_of(t: int) -> Option<Timestamp> {
    if t < 0 {
        None
    } else if t < SEC_CUTOFF {
        Some(Timestamp { secs: t as i64, nanos: 0 })
    } else if t < MILLISEC_CUTOFF {
        Some(Timestamp { secs: (t / 1000) as i64, nanos: ((t % 1000) * 1_000_000) as u32 })
    } else {
        Some(Timestamp { secs: (t / 1_000_000_000) as i64, nanos: (t % 1_000_000_000) as u32 })
    }
}

/// Parse a `i64` unix timestamp that can either be in seconds, milliseconds or
/// nanoseconds.
pub fn parse_timestamp(t: i64) -> (ts: Option<Timestamp>)
    ensures
        ts == timestamp_of(t as int),
{
    if t < 0 {
        return None;
    }
    if t < SEC_CUTOFF {
        timestamp_opt(t, 0)
    } else if t < MILLISEC_CUTOFF {
        timestamp_millis_opt(t)
    } else {
        Some(timestamp_nanos(t))
    }
}

/// Every number from zero on names a point in time that the calendar has.
pub proof fn law_timestamps_are_instants(t: i64)
    requires
        t >= 0,
    ensures
        timestamp_of(t as int) matches Some(ts) && is_instant(ts.secs, ts.nanos),
{
}

/// Within one unit, a greater number names a point in time that is not earlier.
pub proof fn law_timestamps_keep_their_order(a: i64, b: i64)
    requires
        0 <= a <= b,
        b < SEC_CUTOFF || (SEC_CUTOFF <= a && b < MILLISEC_CUTOFF) || MILLISEC_CUTOFF <= a,
    ensures
        timestamp_of(a as int) matches Some(x) && timestamp_of(b as int) matches Some(y) && (x.secs
            < y.secs || (x.secs == y.secs && x.nanos <= y.nanos)),
{
}

} // verus!
