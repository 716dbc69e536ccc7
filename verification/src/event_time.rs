//! The times that a request gives to its events.
use vstd::prelude::*;

use crate::json;
use crate::json::{JsonValue, JsonView, Number};
use crate::timestamp;
use crate::timestamp::Timestamp;

verus! {

/// For tracking origin of the timestamp
#[derive(Clone, Copy, Debug, PartialEq, Eq, Structural)]
pub enum Time {
    /// Backup
    Now(Timestamp),
    /// Provided in the request
    Provided(Timestamp),
}

/// What the `time` field of a request says: nothing, something that is no number, or a number.
#[derive(Clone, Copy, Debug, PartialEq, Eq, Structural)]
pub enum TimeReading {
    Absent,
    Unreadable,
    Number(Number),
}

/// The time that a request gives to an event: none, none that can be read, a Unix timestamp, or
/// seconds and nanoseconds since the epoch.
#[derive(Clone, Copy, Debug, PartialEq, Eq, Structural)]
pub enum EventTime {
    Absent,
    Unreadable,
    Stamp(u64),
    Instant { secs: i64, nanos: u32 },
}

/// What the `time` field of a JSON value says. A text counts as the number it spells.
pub open spec fn time_reading(json: JsonView) -> TimeReading {
    match json::field(json, "time"@) {
        Some(JsonView::Number(n)) => TimeReading::Number(n),
        Some(JsonView::Text(s)) => match json::number_in(s) {
            Some(n) => TimeReading::Number(n),
            None => TimeReading::Unreadable,
        },
        _ => TimeReading::Absent,
    }
}

/// Reads the `time` field of a JSON value.
pub fn read_time(json: &JsonValue) -> (reading: TimeReading)
    ensures
        reading == time_reading(json@),
{
    match json.get("time") {
        Some(JsonValue::Number(n)) => TimeReading::Number(*n),
        Some(JsonValue::Text(s)) => match json::parse_number(s.as_str()) {
            Some(n) => TimeReading::Number(n),
            None => TimeReading::Unreadable,
        },
        _ => TimeReading::Absent,
    }
}

/// The time that a reading gives, where a double splits into these seconds and nanoseconds.
pub open spec fn time_given(reading: TimeReading, split: (i64, u32)) -> EventTime {
    match reading {
        TimeReading::Absent => EventTime::Absent,
        TimeReading::Unreadable => EventTime::Unreadable,
        TimeReading::Number(Number::PosInt(n)) => EventTime::Stamp(n),
        TimeReading::Number(Number::NegInt(n)) => EventTime::Instant { secs: n, nanos: 0 },
        TimeReading::Number(Number::Double(_)) => EventTime::Instant {
            secs: split.0,
            nanos: split.1,
        },
    }
}

/// The time that a reading gives, where a double splits into these seconds and nanoseconds.
pub fn event_time(reading: TimeReading, split: (i64, u32)) -> (time: EventTime)
    ensures
        time == time_given(reading, split),
{
    match reading {
        TimeReading::Absent => EventTime::Absent,
        TimeReading::Unreadable => EventTime::Unreadable,
        TimeReading::Number(Number::PosInt(n)) => EventTime::Stamp(n),
        TimeReading::Number(Number::NegInt(n)) => EventTime::Instant { secs: n, nanos: 0 },
        TimeReading::Number(Number::Double(_)) => EventTime::Instant {
            secs: split.0,
            nanos: split.1,
        },
    }
}

/// Whether a time cannot be used: it was not a number, or it is too great.
pub open spec fn is_unusable(time: EventTime) -> bool {
    match time {
        EventTime::Unreadable => true,
        EventTime::Stamp(n) => n > i64::MAX,
        _ => false,
    }
}

/// Whether a time is a number of seconds that the calendar does not have.
pub open spec fn is_out_of_calendar(time: EventTime) -> bool {
    match time {
        EventTime::Instant { secs, nanos } => !timestamp::is_instant(secs, nanos),
        _ => false,
    }
}

/// The time for an event: the one it was given, else the last one that an event was given, else
/// the backup.
pub open spec fn time_after(before: Time, time: EventTime) -> Time {
    match time {
        EventTime::Stamp(n) => match timestamp::timestamp_of(n as int) {
            Some(t) => Time::Provided(t),
            None => before,
        },
        EventTime::Instant { secs, nanos } => Time::Provided(Timestamp { secs, nanos }),
        _ => before,
    }
}

/// The point in time, wherever it came from.
pub open spec fn moment(time: Time) -> Timestamp {
    match time {
        Time::Now(t) => t,
        Time::Provided(t) => t,
    }
}

} // verus!
