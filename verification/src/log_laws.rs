//! What every log of the event endpoint holds, name by name, from what its JSON value says.
use vstd::prelude::*;
use vstd::utf8::*;

use crate::event_laws;
use crate::event_time;
use crate::event_time::{EventTime, Time, TimeReading};
use crate::events;
use crate::events::{EventIterator, GeneratorView, InputView, IteratorView};
use crate::extractor;
use crate::extractor::DefaultExtractor;
use crate::json;
use crate::json::{JsonView, Number};
use crate::log_event;
use crate::log_event::{LogNamespace, LogView, SchemaView};
use crate::response::ApiError;
use crate::timestamp;
use crate::timestamp::Timestamp;
use crate::value;
use crate::value::ValueView;
use crate::value_laws;

verus! {

/// The schema that has each field under its own name.
pub open spec fn default_schema() -> SchemaView {
    SchemaView {
        message_key: Some(seq!["message"@]),
        host_key: Some(seq!["host"@]),
        timestamp_key: Some(seq!["timestamp"@]),
        source_type_key: Some(seq!["source_type"@]),
    }
}

/// Whether a name is none of those that metadata goes by.
pub open spec fn is_plain(name: Seq<char>) -> bool {
    &&& name != "splunk_channel"@ && name != "splunk_index"@
    &&& name != "splunk_source"@ && name != "splunk_sourcetype"@
    &&& name != "index"@ && name != "source"@ && name != "sourcetype"@
    &&& name != "host"@ && name != "timestamp"@ && name != "source_type"@
    &&& name != "auto_extract_timestamp"@
}

/// Whether the `fields` field of a JSON value does not have that name.
pub open spec fn not_in_fields(json: JsonView, name: Seq<char>) -> bool {
    json::field(json, "fields"@) matches Some(JsonView::Object(entries)) ==> value_laws::is_unnamed(
        entries,
        name,
    )
}

/// The names that logs go by are all different: by their lengths, or by how they start.
pub proof fn lemma_lengths()
    ensures
        "splunk_channel"@.len() == 14,
        "splunk_index"@.len() == 12,
        "splunk_source"@.len() == 13,
        "splunk_sourcetype"@.len() == 17,
        "splunk_hec_full"@.len() == 15,
        "index"@.len() == 5,
        "source"@.len() == 6,
        "sourcetype"@.len() == 10,
        "host"@.len() == 4,
        "timestamp"@.len() == 9,
        "ingest_timestamp"@.len() == 16,
        "source_type"@.len() == 11,
        "auto_extract_timestamp"@.len() == 22,
        "message"@.len() == 7,
        "vector"@.len() == 6,
        "line"@.len() == 4,
        "source"@ != "vector"@,
        "line"@ != "host"@,
{
    reveal_strlit("splunk_channel");
    reveal_strlit("splunk_index");
    reveal_strlit("splunk_source");
    reveal_strlit("splunk_sourcetype");
    reveal_strlit("splunk_hec_full");
    reveal_strlit("index");
    reveal_strlit("source");
    reveal_strlit("sourcetype");
    reveal_strlit("host");
    reveal_strlit("timestamp");
    reveal_strlit("ingest_timestamp");
    reveal_strlit("source_type");
    reveal_strlit("auto_extract_timestamp");
    reveal_strlit("message");
    reveal_strlit("vector");
    reveal_strlit("line");
    assert("source"@[0] == 's' && "vector"@[0] == 'v' && "line"@[0] == 'l' && "host"@[0] == 'h');
}

/// A text as a value is its bytes in UTF-8, character for character.
pub proof fn law_texts_are_their_bytes(s: Seq<char>)
    ensures
        value::text_value(s) == ValueView::Bytes(encode_utf8(s)),
        events::maybe_text(Some(s)) == Some(ValueView::Bytes(encode_utf8(s))),
        events::maybe_text(None) is None,
{
}

proof fn lemma_plain_is_free(
    iter: IteratorView,
    json: JsonView,
    now: Timestamp,
    name: Seq<char>,
)
    requires
        event_laws::is_whole(iter, default_schema()),
        is_plain(name),
        iter.log_namespace is Legacy ==> not_in_fields(json, name),
    ensures
        event_laws::is_free(iter, default_schema(), json, now, name),
{
    let after = events::iterator_after(iter, json, EventTime::Absent);
    if iter.log_namespace is Legacy {
        match json::field(json, "fields"@) {
            Some(JsonView::Object(entries)) => {
                value_laws::law_json_objects_get_no_other_fields(entries, name);
            },
            _ => {},
        }
    }
    assert(event_laws::is_whole(after, default_schema()));
    assert(event_laws::unextracted(after, name));
}

/// A text that is sent as an event is the message of its log, character for character, whatever
/// came before it and whatever comes with it.
pub proof fn law_text_events_are_the_message(
    iter: IteratorView,
    json: JsonView,
    time: EventTime,
    now: Timestamp,
    s: Seq<char>,
)
    requires
        event_laws::is_whole(iter, default_schema()),
        json::field(json, "event"@) == Some(JsonView::Text(s)),
        s.len() > 0,
        match iter.log_namespace {
            LogNamespace::Legacy => not_in_fields(json, "message"@),
            LogNamespace::Vector => iter.fix_bare_string_events,
        },
    ensures
        value::field(
            events::built_log(iter, default_schema(), json, time, now).value,
            "message"@,
        ) == Some(ValueView::Bytes(encode_utf8(s))),
{
    law_scalar_events_are_the_message(iter, json, time, now, JsonView::Text(s));
}

/// Anything that is sent as an event and is no object is the message of its log, as it is.
pub proof fn law_scalar_events_are_the_message(
    iter: IteratorView,
    json: JsonView,
    time: EventTime,
    now: Timestamp,
    event: JsonView,
)
    requires
        event_laws::is_whole(iter, default_schema()),
        json::field(json, "event"@) == Some(event),
        match event {
            JsonView::Null => false,
            JsonView::Text(s) => s.len() > 0,
            JsonView::Array(items) => items.len() > 0,
            JsonView::Object(_) => false,
            _ => true,
        },
        match iter.log_namespace {
            LogNamespace::Legacy => not_in_fields(json, "message"@),
            LogNamespace::Vector => iter.fix_bare_string_events,
        },
    ensures
        value::field(
            events::built_log(iter, default_schema(), json, time, now).value,
            "message"@,
        ) == Some(value::json_value(event)),
{
    lemma_lengths();
    lemma_plain_is_free(iter, json, now, "message"@);
    event_laws::law_scalar_events_are_preserved(
        iter,
        default_schema(),
        json,
        time,
        now,
        "message"@,
    );
}

/// Each field of an object that is sent as an event is at the root of its log, as it is, but for
/// the names that metadata goes by, and `line` in the Legacy namespace.
pub proof fn law_object_events_keep_their_fields(
    iter: IteratorView,
    json: JsonView,
    time: EventTime,
    now: Timestamp,
    entries: Seq<(Seq<char>, JsonView)>,
    name: Seq<char>,
    i: int,
)
    requires
        event_laws::is_whole(iter, default_schema()),
        json::field(json, "event"@) == Some(JsonView::Object(entries)),
        value_laws::is_first_named(entries, name, i),
        is_plain(name),
        iter.log_namespace is Legacy ==> not_in_fields(json, name) && name != "line"@,
    ensures
        value::field(events::built_log(iter, default_schema(), json, time, now).value, name)
            == Some(value::json_value(entries[i].1)),
{
    value_laws::law_json_objects_keep_their_fields(entries, name, i);
    lemma_plain_is_free(iter, json, now, name);
    event_laws::law_object_fields_are_preserved(iter, default_schema(), json, time, now, name);
}

/// An object that is sent as an event gets no field that neither it nor its metadata names.
pub proof fn law_object_events_get_no_other_fields(
    iter: IteratorView,
    json: JsonView,
    time: EventTime,
    now: Timestamp,
    entries: Seq<(Seq<char>, JsonView)>,
    name: Seq<char>,
)
    requires
        event_laws::is_whole(iter, default_schema()),
        json::field(json, "event"@) == Some(JsonView::Object(entries)),
        value_laws::is_unnamed(entries, name),
        is_plain(name),
        iter.log_namespace is Legacy ==> not_in_fields(json, name) && name != "message"@,
    ensures
        value::field(events::built_log(iter, default_schema(), json, time, now).value, name)
            is None,
{
    value_laws::law_json_objects_get_no_other_fields(entries, name);
    lemma_plain_is_free(iter, json, now, name);
    event_laws::law_metadata_leaves_other_fields(iter, default_schema(), json, time, now, name);
    if iter.log_namespace is Legacy {
        let k = value_laws::law_names_stand_first_somewhere_or_nowhere(entries, "line"@);
        match json::lookup(entries, "line"@) {
            Some(line) => {
                assert(entries[k].0 == "line"@);
                assert(name != "line"@);
                let v = value::json_value(line);
                value::lemma_put_one(log_event::empty_log().value, "line"@, v);
                value::lemma_put_one(log_event::empty_log().value, "message"@, v);
                assert(value::field(events::line_log(default_schema(), entries).value, name)
                    is None);
            },
            None => {},
        }
    }
}

/// In the Legacy namespace the text under `line` of an object is the message of its log, character
/// for character, unless the object has a message of its own.
pub proof fn law_line_texts_are_the_message(
    iter: IteratorView,
    json: JsonView,
    time: EventTime,
    now: Timestamp,
    entries: Seq<(Seq<char>, JsonView)>,
    i: int,
    s: Seq<char>,
)
    requires
        event_laws::is_whole(iter, default_schema()),
        iter.log_namespace is Legacy,
        json::field(json, "event"@) == Some(JsonView::Object(entries)),
        value_laws::is_first_named(entries, "line"@, i),
        entries[i].1 == JsonView::Text(s),
        value_laws::is_unnamed(entries, "message"@),
        not_in_fields(json, "message"@),
    ensures
        ({
            let log = events::built_log(iter, default_schema(), json, time, now);
            &&& value::field(log.value, "message"@) == Some(ValueView::Bytes(encode_utf8(s)))
            &&& not_in_fields(json, "line"@) ==> value::field(log.value, "line"@) is None
        }),
{
    lemma_lengths();
    value_laws::law_json_objects_keep_their_fields(entries, "line"@, i);
    value_laws::law_json_objects_get_no_other_fields(entries, "message"@);
    lemma_plain_is_free(iter, json, now, "message"@);
    event_laws::law_line_is_the_message(iter, default_schema(), json, time, now, "message"@);
    if not_in_fields(json, "line"@) {
        lemma_plain_is_free(iter, json, now, "line"@);
        event_laws::law_metadata_leaves_other_fields(
            iter,
            default_schema(),
            json,
            time,
            now,
            "line"@,
        );
        value::lemma_put_one(
            log_event::empty_log().value,
            "message"@,
            value::json_value(JsonView::Text(s)),
        );
    }
}

/// In the Vector namespace, where bare events are left bare and nothing is added at the root, the
/// event is the value that was sent, and nothing else.
pub proof fn law_bare_events_are_left_bare(
    iter: IteratorView,
    schema: SchemaView,
    json: JsonView,
    time: EventTime,
    now: Timestamp,
)
    requires
        event_laws::is_whole(iter, schema),
        iter.log_namespace is Vector,
        !iter.fix_bare_string_events,
        !iter.auto_forward_metadata,
        !iter.auto_extract_timestamp,
        json::field(json, "event"@) is Some,
    ensures
        events::built_log(iter, schema, json, time, now).value == value::json_value(
            json::field(json, "event"@)->0,
        ),
{
    let after = events::iterator_after(iter, json, time);
    let timed = event_laws::log_with_time(iter, schema, json, time, now);
    let a = extractor::extracted(after.host, timed);
    let b = extractor::extracted(after.index, a);
    let c = extractor::extracted(after.source, b);
    assert(a.value == timed.value);
    assert(b.value == timed.value);
    assert(c.value == timed.value);
}

/// In the Legacy namespace a log has no metadata beside it.
pub proof fn law_legacy_logs_have_nothing_beside_them(
    iter: IteratorView,
    schema: SchemaView,
    json: JsonView,
    time: EventTime,
    now: Timestamp,
)
    requires
        event_laws::is_whole(iter, schema),
        iter.log_namespace is Legacy,
    ensures
        events::built_log(iter, schema, json, time, now).metadata == ValueView::Object(
            Map::<Seq<char>, ValueView>::empty(),
        ),
{
    let after = events::iterator_after(iter, json, time);
    let timed = event_laws::log_with_time(iter, schema, json, time, now);
    let empty = ValueView::Object(Map::<Seq<char>, ValueView>::empty());
    assert(events::bare_log(iter, schema, json, now).metadata == empty);
    assert(event_laws::log_with_channel(iter, schema, json, now).metadata == empty);
    assert(timed.metadata == empty);
    let a = extractor::extracted(after.host, timed);
    let b = extractor::extracted(after.index, a);
    let c = extractor::extracted(after.source, b);
    assert(a.metadata == empty);
    assert(b.metadata == empty);
    assert(c.metadata == empty);
    assert(events::with_extracted(after, timed).metadata == empty);
}

/// What a log has by a name of this source: in the Legacy namespace at the root of the event, in
/// the Vector namespace beside it.
pub open spec fn by_name(namespace: LogNamespace, log: LogView, name: Seq<char>) -> Option<
    ValueView,
> {
    match namespace {
        LogNamespace::Legacy => value::field(log.value, name),
        LogNamespace::Vector => value::at(log.metadata, seq!["splunk_hec_full"@, name]),
    }
}

/// Whether a point in time is the one that a whole number names: in seconds, in milliseconds from
/// the year 2400 in seconds on, and in nanoseconds from the year 10000 in milliseconds on.
pub open spec fn is_named_by(t: Timestamp, n: int) -> bool {
    &&& 0 <= t.nanos < 1_000_000_000
    &&& 0 <= n < 13_569_465_600 ==> t.secs == n && t.nanos == 0
    &&& 13_569_465_600 <= n < 253_402_300_800_000 ==> t.secs * 1_000 + t.nanos as int / 1_000_000
        == n && t.nanos as int % 1_000_000 == 0
    &&& 253_402_300_800_000 <= n ==> t.secs * 1_000_000_000 + t.nanos == n
}

/// A whole number from zero on names the point in time so many seconds, milliseconds or nanoseconds
/// after the epoch, by its size; one below zero names none.
pub proof fn law_whole_numbers_name_points_in_time(n: int)
    requires
        n <= i64::MAX,
    ensures
        n < 0 ==> timestamp::timestamp_of(n) is None,
        n >= 0 ==> (timestamp::timestamp_of(n) matches Some(t) && is_named_by(t, n)),
{
    if n >= 13_569_465_600 {
        assert(0 <= n / 1000 <= i64::MAX);
        assert(0 <= n / 1_000_000_000 <= i64::MAX);
        assert(0 <= (n % 1000) * 1_000_000 < 1_000_000_000);
    }
}

/// What the `time` field of a JSON value says: a number is itself, a text is the number that it
/// spells or unreadable, and anything else is as if it were not there.
pub proof fn law_times_are_read(json: JsonView, n: Number, s: Seq<char>, split: (i64, u32))
    ensures
        json::field(json, "time"@) == Some(JsonView::Number(n)) ==> event_time::time_reading(json)
            == TimeReading::Number(n),
        json::field(json, "time"@) == Some(JsonView::Text(s)) ==> event_time::time_reading(json)
            == match json::number_in(s) {
            Some(n) => TimeReading::Number(n),
            None => TimeReading::Unreadable,
        },
        !(json::field(json, "time"@) matches Some(JsonView::Number(_))) && !(json::field(
            json,
            "time"@,
        ) matches Some(JsonView::Text(_))) ==> event_time::time_reading(json)
            == TimeReading::Absent,
{
}

/// A whole number from zero on is a timestamp by its size, one below zero a number of seconds, and
/// a double the seconds and nanoseconds that it splits into.
pub proof fn law_times_are_given(n: u64, m: i64, bits: u64, secs: i64, nanos: u32)
    ensures
        event_time::time_given(TimeReading::Absent, (secs, nanos)) == EventTime::Absent,
        event_time::time_given(TimeReading::Unreadable, (secs, nanos)) == EventTime::Unreadable,
        event_time::time_given(TimeReading::Number(Number::PosInt(n)), (secs, nanos))
            == EventTime::Stamp(n),
        event_time::time_given(TimeReading::Number(Number::NegInt(m)), (secs, nanos)) == (
        EventTime::Instant { secs: m, nanos: 0 }),
        event_time::time_given(TimeReading::Number(Number::Double(bits)), (secs, nanos)) == (
        EventTime::Instant { secs, nanos }),
{
}

/// A time that cannot be read, and a whole number too great for 64 bits with a sign, cannot be
/// used; every other time can.
pub proof fn law_unusable_times(n: u64, secs: i64, nanos: u32)
    ensures
        event_time::is_unusable(EventTime::Unreadable),
        event_time::is_unusable(EventTime::Stamp(n)) <==> n > 0x7fff_ffff_ffff_ffff,
        !event_time::is_unusable(EventTime::Absent),
        !event_time::is_unusable(EventTime::Instant { secs, nanos }),
        event_time::is_out_of_calendar(EventTime::Instant { secs, nanos }) <==> !(
        -8_334_601_228_800 <= secs <= 8_210_266_876_799 && (nanos < 1_000_000_000 || (nanos
            < 2_000_000_000 && secs as int % 60 == 59))),
        !event_time::is_out_of_calendar(EventTime::Absent),
        !event_time::is_out_of_calendar(EventTime::Unreadable),
        !event_time::is_out_of_calendar(EventTime::Stamp(n)),
{
}

/// The point in time that an iterator has for events without one of their own.
pub open spec fn standing_time(iter: IteratorView) -> Timestamp {
    match iter.time {
        Time::Now(t) => t,
        Time::Provided(t) => t,
    }
}

/// An event has by name the time that its iterator has after it.
pub proof fn lemma_time_is_by_name(
    iter: IteratorView,
    json: JsonView,
    time: EventTime,
    now: Timestamp,
)
    requires
        event_laws::is_whole(iter, default_schema()),
    ensures
        by_name(
            iter.log_namespace,
            events::built_log(iter, default_schema(), json, time, now),
            "timestamp"@,
        ) == Some(
            ValueView::Timestamp(event_time::moment(event_time::time_after(iter.time, time))),
        ),
{
    lemma_lengths();
    let schema = default_schema();
    let after = events::iterator_after(iter, json, time);
    let absent = events::iterator_after(iter, json, EventTime::Absent);
    assert(event_laws::is_whole(after, schema));
    assert(event_laws::is_whole(absent, schema));
    assert(event_laws::unextracted(after, "timestamp"@));
    assert(event_laws::unextracted(absent, "timestamp"@));
    event_laws::law_events_have_a_time(iter, schema, json, time, now, "timestamp"@);
}

/// An event that gives a time has that time, whatever the time of the events before it: the one
/// that its whole number names, or the seconds and nanoseconds that its double splits into. Only an
/// event without a time has the one that stands.
pub proof fn law_events_have_the_time_they_give(
    iter: IteratorView,
    json: JsonView,
    now: Timestamp,
    n: u64,
    secs: i64,
    nanos: u32,
)
    requires
        event_laws::is_whole(iter, default_schema()),
        n <= i64::MAX,
    ensures
        by_name(
            iter.log_namespace,
            events::built_log(iter, default_schema(), json, EventTime::Stamp(n), now),
            "timestamp"@,
        ) matches Some(ValueView::Timestamp(t)) && is_named_by(t, n as int),
        by_name(
            iter.log_namespace,
            events::built_log(
                iter,
                default_schema(),
                json,
                EventTime::Instant { secs, nanos },
                now,
            ),
            "timestamp"@,
        ) == Some(ValueView::Timestamp(Timestamp { secs, nanos })),
        by_name(
            iter.log_namespace,
            events::built_log(iter, default_schema(), json, EventTime::Absent, now),
            "timestamp"@,
        ) == Some(ValueView::Timestamp(standing_time(iter))),
{
    lemma_time_is_by_name(iter, json, EventTime::Stamp(n), now);
    lemma_time_is_by_name(iter, json, EventTime::Instant { secs, nanos }, now);
    lemma_time_is_by_name(iter, json, EventTime::Absent, now);
    law_whole_numbers_name_points_in_time(n as int);
}

/// The time of an event stands for the events after it where the event gave one, whatever stood
/// before; and what stood before stands on where it did not.
pub proof fn law_given_times_stand(
    iter: IteratorView,
    json: JsonView,
    n: u64,
    secs: i64,
    nanos: u32,
)
    requires
        n <= i64::MAX,
    ensures
        events::iterator_after(iter, json, EventTime::Stamp(n)).time matches Time::Provided(t)
            && is_named_by(t, n as int),
        events::iterator_after(iter, json, EventTime::Instant { secs, nanos }).time
            == Time::Provided(Timestamp { secs, nanos }),
        events::iterator_after(iter, json, EventTime::Absent).time == iter.time,
{
    law_whole_numbers_name_points_in_time(n as int);
}

/// What an extractor of that field remembers after a JSON value: the text of the field, character
/// for character, where it is a text, and what it remembered before otherwise.
pub open spec fn remembered(json: JsonView, field: Seq<char>, before: Option<ValueView>) -> Option<
    ValueView,
> {
    match json::field(json, field) {
        Some(JsonView::Text(s)) => Some(ValueView::Bytes(encode_utf8(s))),
        _ => before,
    }
}

/// After an event, an iterator has counted one more, remembers host, index, source and source type
/// of the event where it gave them, and is otherwise as it was.
pub proof fn law_iterators_remember(
    iter: IteratorView,
    schema: SchemaView,
    json: JsonView,
    time: EventTime,
)
    requires
        event_laws::is_whole(iter, schema),
        iter.events < usize::MAX,
    ensures
        ({
            let after = events::iterator_after(iter, json, time);
            &&& after.events == iter.events + 1
            &&& after.done == iter.done
            &&& after.host.value == remembered(json, "host"@, iter.host.value)
            &&& after.index.value == remembered(json, "index"@, iter.index.value)
            &&& after.source.value == remembered(json, "source"@, iter.source.value)
            &&& after.sourcetype.value == remembered(json, "sourcetype"@, iter.sourcetype.value)
            &&& after.channel == iter.channel
            &&& after.batch == iter.batch
            &&& after.token == iter.token
            &&& after.log_namespace == iter.log_namespace
            &&& after.auto_forward_metadata == iter.auto_forward_metadata
            &&& after.fix_bare_string_events == iter.fix_bare_string_events
            &&& after.auto_extract_timestamp == iter.auto_extract_timestamp
        }),
{
}

/// The text of an optional text, as a value.
pub open spec fn bytes_of(s: Option<Seq<char>>) -> Option<ValueView> {
    match s {
        Some(s) => Some(ValueView::Bytes(encode_utf8(s))),
        None => None,
    }
}

/// An iterator starts with no events, no error, the channel, token and settings of its request, the
/// time of the clock, and the host that the request was forwarded for, else the peer; it remembers
/// nothing else.
pub proof fn law_iterators_start_afresh(f: GeneratorView, schema: SchemaView, now: Timestamp)
    ensures
        ({
            let iter = events::iterator_start(f, schema, now);
            &&& event_laws::is_whole(iter, schema)
            &&& !iter.done
            &&& iter.events == 0
            &&& iter.channel == bytes_of(f.channel)
            &&& iter.time == Time::Now(now)
            &&& f.remote_addr is Some ==> iter.host.value == bytes_of(f.remote_addr)
            &&& f.remote_addr is None ==> iter.host.value == bytes_of(f.remote)
            &&& iter.index.value is None
            &&& iter.source.value is None
            &&& iter.sourcetype.value is None
            &&& iter.batch == f.batch
            &&& iter.token == f.token
            &&& iter.log_namespace == f.log_namespace
            &&& iter.auto_forward_metadata == f.auto_forward_metadata
            &&& iter.fix_bare_string_events == f.fix_bare_string_events
            &&& iter.auto_extract_timestamp == f.auto_extract_timestamp
        }),
{
}

/// An event has its index, source and source type by their prefixed names, as the event gives them,
/// else as the last event before it that did; forwarded, by their plain names too.
pub proof fn law_events_have_the_metadata_they_give(
    iter: IteratorView,
    schema: SchemaView,
    json: JsonView,
    time: EventTime,
    now: Timestamp,
)
    requires
        event_laws::is_whole(iter, schema),
    ensures
        ({
            let log = events::built_log(iter, schema, json, time, now);
            let namespace = iter.log_namespace;
            let index = remembered(json, "index"@, iter.index.value);
            let source = remembered(json, "source"@, iter.source.value);
            let sourcetype = remembered(json, "sourcetype"@, iter.sourcetype.value);
            &&& index is Some ==> by_name(namespace, log, "splunk_index"@) == index
            &&& source is Some ==> by_name(namespace, log, "splunk_source"@) == source
            &&& sourcetype is Some ==> by_name(namespace, log, "splunk_sourcetype"@) == sourcetype
            &&& iter.auto_forward_metadata && index is Some ==> value::field(log.value, "index"@)
                == index
            &&& iter.auto_forward_metadata && source is Some ==> value::field(log.value, "source"@)
                == source
            &&& iter.auto_forward_metadata && sourcetype is Some ==> value::field(
                log.value,
                "sourcetype"@,
            ) == sourcetype
        }),
{
    event_laws::law_metadata_is_extracted(iter, schema, json, time, now);
    if iter.auto_forward_metadata {
        event_laws::law_metadata_is_forwarded(iter, schema, json, time, now);
    }
}

/// An event has the host that it gives, else the one that the last event before it gave, else that
/// of its request.
pub proof fn law_events_have_a_host(
    iter: IteratorView,
    json: JsonView,
    time: EventTime,
    now: Timestamp,
)
    requires
        event_laws::is_whole(iter, default_schema()),
        remembered(json, "host"@, iter.host.value) is Some,
    ensures
        by_name(
            iter.log_namespace,
            events::built_log(iter, default_schema(), json, time, now),
            "host"@,
        ) == remembered(json, "host"@, iter.host.value),
{
    lemma_lengths();
    let schema = default_schema();
    let namespace = iter.log_namespace;
    let after = events::iterator_after(iter, json, time);
    let timed = event_laws::log_with_time(iter, schema, json, time, now);
    let a = extractor::extracted(after.host, timed);
    let b = extractor::extracted(after.index, a);
    let c = extractor::extracted(after.source, b);
    let d = extractor::extracted(after.sourcetype, c);
    event_laws::lemma_metadata_is_set(namespace, timed, "host"@, after.host.value->0);
    event_laws::lemma_metadata_is_kept_by_extractor(after.index, a, "host"@);
    event_laws::lemma_metadata_is_kept_by_extractor(after.source, b, "host"@);
    event_laws::lemma_metadata_is_kept_by_extractor(after.sourcetype, c, "host"@);
    event_laws::lemma_metadata_is_kept_to_the_end(iter, after, d, "host"@);
}

/// An event has the channel that it names, character for character, else that of its request.
pub proof fn law_events_have_a_channel(
    iter: IteratorView,
    json: JsonView,
    time: EventTime,
    now: Timestamp,
)
    requires
        event_laws::is_whole(iter, default_schema()),
        not_in_fields(json, "splunk_channel"@),
        remembered(json, "channel"@, iter.channel) is Some,
    ensures
        by_name(
            iter.log_namespace,
            events::built_log(iter, default_schema(), json, time, now),
            "splunk_channel"@,
        ) == remembered(json, "channel"@, iter.channel),
{
    lemma_lengths();
    let after = events::iterator_after(iter, json, time);
    assert(event_laws::is_whole(after, default_schema()));
    lemma_not_added(json, "splunk_channel"@);
    event_laws::law_events_carry_the_channel(iter, default_schema(), json, time, now);
}

proof fn lemma_not_added(json: JsonView, name: Seq<char>)
    requires
        not_in_fields(json, name),
    ensures
        !event_laws::added_fields(json).dom().contains(name),
{
    match json::field(json, "fields"@) {
        Some(JsonView::Object(entries)) => {
            value_laws::law_json_objects_get_no_other_fields(entries, name);
        },
        _ => {},
    }
}

/// Each of the `fields` of an event is in its log by its name, as it is, but for the names that
/// other metadata goes by.
pub proof fn law_events_have_their_fields(
    iter: IteratorView,
    json: JsonView,
    time: EventTime,
    now: Timestamp,
    entries: Seq<(Seq<char>, JsonView)>,
    name: Seq<char>,
    i: int,
)
    requires
        event_laws::is_whole(iter, default_schema()),
        json::field(json, "fields"@) == Some(JsonView::Object(entries)),
        value_laws::is_first_named(entries, name, i),
        is_plain(name),
    ensures
        by_name(
            iter.log_namespace,
            events::built_log(iter, default_schema(), json, time, now),
            name,
        ) == Some(value::json_value(entries[i].1)),
{
    value_laws::law_json_objects_keep_their_fields(entries, name, i);
    let after = events::iterator_after(iter, json, time);
    assert(event_laws::is_whole(after, default_schema()));
    event_laws::law_fields_are_added(iter, default_schema(), json, time, now, name);
}

/// Whether what a log has beside it is the same for a name.
spec fn same_beside(a: LogView, b: LogView, root: Seq<char>) -> bool {
    value::field(a.metadata, root) == value::field(b.metadata, root)
}

proof fn lemma_source_noted_keeps_roots(
    log: LogView,
    key: Option<log_event::LegacyKeyView>,
    path: Seq<Seq<char>>,
    v: ValueView,
    root: Seq<char>,
)
    requires
        root != "splunk_hec_full"@,
    ensures
        same_beside(
            log_event::source_noted(LogNamespace::Vector, log, key, path, v),
            log,
            root,
        ),
{
    let whole = seq!["splunk_hec_full"@] + path;
    assert(whole[0] == "splunk_hec_full"@);
    event_laws::law_what_is_put_leaves_other_fields(log.metadata, whole, v, root);
}

proof fn lemma_roots_are_kept(
    iter: IteratorView,
    schema: SchemaView,
    json: JsonView,
    time: EventTime,
    now: Timestamp,
    root: Seq<char>,
)
    requires
        event_laws::is_whole(iter, schema),
        iter.log_namespace is Vector,
        root != "splunk_hec_full"@,
    ensures
        same_beside(
            events::built_log(iter, schema, json, time, now),
            events::with_source_type(
                LogNamespace::Vector,
                schema,
                events::bare_log(iter, schema, json, now),
            ),
            root,
        ),
{
    let namespace = LogNamespace::Vector;
    let after = events::iterator_after(iter, json, time);
    let typed = events::with_source_type(
        namespace,
        schema,
        events::bare_log(iter, schema, json, now),
    );
    let log = event_laws::log_with_channel(iter, schema, json, now);
    match event_laws::channel_of(iter, json) {
        Some(v) => lemma_source_noted_keeps_roots(
            typed,
            Some(log_event::LegacyKeyView::Overwrite(seq![events::CHANNEL@])),
            seq![events::CHANNEL@],
            v,
            root,
        ),
        None => {},
    }
    let with_fields = events::with_fields(namespace, json, log);
    let fields = event_laws::added_fields(json);
    let inner = match value::field(log.metadata, "splunk_hec_full"@) {
        Some(inner) => inner,
        None => ValueView::Null,
    };
    value::lemma_put_one(log.metadata, "splunk_hec_full"@, value::merged(inner, fields));
    assert(same_beside(with_fields, log, root));
    lemma_source_noted_keeps_roots(
        with_fields,
        event_laws::overwrite(schema.timestamp_key),
        seq!["timestamp"@],
        ValueView::Timestamp(event_time::moment(after.time)),
        root,
    );
    let timed = event_laws::log_with_time(iter, schema, json, time, now);
    let a = extractor::extracted(after.host, timed);
    let b = extractor::extracted(after.index, a);
    let c = extractor::extracted(after.source, b);
    lemma_extracted_keeps_roots(after.host, timed, root);
    lemma_extracted_keeps_roots(after.index, a, root);
    lemma_extracted_keeps_roots(after.source, b, root);
    lemma_extracted_keeps_roots(after.sourcetype, c, root);
}

proof fn lemma_extracted_keeps_roots(
    e: extractor::ExtractorView,
    log: LogView,
    root: Seq<char>,
)
    requires
        e.log_namespace is Vector,
        root != "splunk_hec_full"@,
    ensures
        same_beside(extractor::extracted(e, log), log, root),
{
    match (e.value, e.to_field) {
        (Some(v), Some(key)) => lemma_source_noted_keeps_roots(
            log,
            Some(log_event::LegacyKeyView::Overwrite(key)),
            key,
            v,
            root,
        ),
        _ => {},
    }
}

/// In the Vector namespace a log has beside it the kind of its source and the time at which it
/// came, under `vector`, and what it has under the name of its source; nothing else.
pub proof fn law_vector_logs_tell_their_source(
    iter: IteratorView,
    schema: SchemaView,
    json: JsonView,
    time: EventTime,
    now: Timestamp,
    root: Seq<char>,
)
    requires
        event_laws::is_whole(iter, schema),
        iter.log_namespace is Vector,
    ensures
        ({
            let log = events::built_log(iter, schema, json, time, now);
            &&& value::field(log.metadata, "vector"@) == Some(
                ValueView::Object(
                    Map::empty().insert("ingest_timestamp"@, ValueView::Timestamp(now)).insert(
                        "source_type"@,
                        ValueView::Bytes(encode_utf8("splunk_hec_full"@)),
                    ),
                ),
            )
            &&& root != "vector"@ && root != "splunk_hec_full"@ ==> value::field(log.metadata, root)
                is None
        }),
{
    lemma_lengths();
    lemma_roots_are_kept(iter, schema, json, time, now, "vector"@);
    if root != "splunk_hec_full"@ {
        lemma_roots_are_kept(iter, schema, json, time, now, root);
    }
    let stamp = ValueView::Timestamp(now);
    let kind = ValueView::Bytes(encode_utf8("splunk_hec_full"@));
    let empty = ValueView::Object(Map::<Seq<char>, ValueView>::empty());
    let bare = events::bare_log(iter, schema, json, now);
    let p = seq!["vector"@] + seq!["ingest_timestamp"@];
    let q = seq!["vector"@] + seq!["source_type"@];
    assert(p.skip(1) =~= seq!["ingest_timestamp"@]);
    assert(q.skip(1) =~= seq!["source_type"@]);
    value::lemma_put_one(ValueView::Null, "ingest_timestamp"@, stamp);
    assert(value::put(empty, p, stamp) == bare.metadata);
    let inner = ValueView::Object(Map::<Seq<char>, ValueView>::empty().insert(
        "ingest_timestamp"@,
        stamp,
    ));
    assert(value::field(bare.metadata, "vector"@) == Some(inner));
    value::lemma_put_one(inner, "source_type"@, kind);
    let typed = events::with_source_type(LogNamespace::Vector, schema, bare);
    assert(typed.metadata == value::put(bare.metadata, q, kind));
}

/// In the Vector namespace a log has nothing under the name of its source that neither its
/// `fields` nor its metadata name.
pub proof fn law_vector_logs_have_no_other_metadata(
    iter: IteratorView,
    json: JsonView,
    time: EventTime,
    now: Timestamp,
    name: Seq<char>,
)
    requires
        event_laws::is_whole(iter, default_schema()),
        iter.log_namespace is Vector,
        not_in_fields(json, name),
        is_plain(name),
    ensures
        by_name(
            LogNamespace::Vector,
            events::built_log(iter, default_schema(), json, time, now),
            name,
        ) is None,
{
    lemma_lengths();
    let schema = default_schema();
    let namespace = LogNamespace::Vector;
    let own = "splunk_hec_full"@;
    let after = events::iterator_after(iter, json, time);
    assert(event_laws::is_whole(after, schema));
    let bare = events::bare_log(iter, schema, json, now);
    let typed = events::with_source_type(namespace, schema, bare);
    let empty = ValueView::Object(Map::<Seq<char>, ValueView>::empty());
    event_laws::law_what_is_put_leaves_other_fields(
        empty,
        seq!["vector"@] + seq!["ingest_timestamp"@],
        ValueView::Timestamp(now),
        own,
    );
    assert(value::field(bare.metadata, own) is None);
    event_laws::law_what_is_put_leaves_other_fields(
        bare.metadata,
        seq!["vector"@] + seq!["source_type"@],
        value::text_value(own),
        own,
    );
    event_laws::lemma_at_two(typed.metadata, own, name);
    assert(event_laws::metadata_named(namespace, typed, name) is None);
    let log = event_laws::log_with_channel(iter, schema, json, now);
    match event_laws::channel_of(iter, json) {
        Some(v) => event_laws::lemma_metadata_is_kept(
            namespace,
            typed,
            Some(log_event::LegacyKeyView::Overwrite(seq![events::CHANNEL@])),
            seq![events::CHANNEL@],
            v,
            name,
        ),
        None => {},
    }
    lemma_not_added(json, name);
    event_laws::lemma_fields_keep_metadata(namespace, json, log, name);
    let with_fields = events::with_fields(namespace, json, log);
    event_laws::lemma_metadata_is_kept(
        namespace,
        with_fields,
        event_laws::overwrite(schema.timestamp_key),
        seq!["timestamp"@],
        ValueView::Timestamp(event_time::moment(after.time)),
        name,
    );
    let timed = event_laws::log_with_time(iter, schema, json, time, now);
    let a = extractor::extracted(after.host, timed);
    let b = extractor::extracted(after.index, a);
    let c = extractor::extracted(after.source, b);
    event_laws::lemma_metadata_is_kept_by_extractor(after.host, timed, name);
    event_laws::lemma_metadata_is_kept_by_extractor(after.index, a, name);
    event_laws::lemma_metadata_is_kept_by_extractor(after.source, b, name);
    event_laws::lemma_metadata_is_kept_by_extractor(after.sourcetype, c, name);
    event_laws::lemma_metadata_is_kept_to_the_end(
        iter,
        after,
        events::with_extracted(after, timed),
        name,
    );
}

/// In the Legacy namespace a log tells the kind of its source, unless the event has a field of that
/// name.
pub proof fn law_legacy_logs_tell_their_source(
    iter: IteratorView,
    json: JsonView,
    time: EventTime,
    now: Timestamp,
    event: JsonView,
)
    requires
        event_laws::is_whole(iter, default_schema()),
        iter.log_namespace is Legacy,
        json::field(json, "event"@) == Some(event),
        event matches JsonView::Object(entries) ==> value_laws::is_unnamed(
            entries,
            "source_type"@,
        ),
        not_in_fields(json, "source_type"@),
    ensures
        value::field(
            events::built_log(iter, default_schema(), json, time, now).value,
            "source_type"@,
        ) == Some(ValueView::Bytes(encode_utf8("splunk_hec_full"@))),
{
    lemma_lengths();
    let schema = default_schema();
    let name = "source_type"@;
    let namespace = LogNamespace::Legacy;
    let bare = events::bare_log(iter, schema, json, now);
    let kind = value::text_value("splunk_hec_full"@);
    match event {
        JsonView::Object(entries) => {
            value_laws::law_json_objects_get_no_other_fields(entries, name);
            match json::lookup(entries, "line"@) {
                Some(line) => {
                    let v = value::json_value(line);
                    value::lemma_put_one(log_event::empty_log().value, "line"@, v);
                    value::lemma_put_one(log_event::empty_log().value, "message"@, v);
                },
                None => {},
            }
            assert(value::field(events::line_log(schema, entries).value, name) is None);
        },
        _ => {
            value::lemma_put_one(
                log_event::empty_log().value,
                "message"@,
                value::json_value(event),
            );
        },
    }
    assert(value::field(bare.value, name) is None);
    reveal_with_fuel(value::at, 2);
    assert(value::at(bare.value, seq![name]) is None);
    value::lemma_put_one(bare.value, name, kind);
    let typed = events::with_source_type(namespace, schema, bare);
    assert(value::field(typed.value, name) == Some(kind));
    match event_laws::channel_of(iter, json) {
        Some(v) => event_laws::law_what_is_put_leaves_other_fields(
            typed.value,
            seq![events::CHANNEL@],
            v,
            name,
        ),
        None => {},
    }
    let after = events::iterator_after(iter, json, EventTime::Absent);
    assert(event_laws::is_whole(after, schema));
    lemma_not_added(json, name);
    event_laws::lemma_kept_after_channel(iter, schema, json, time, now, name);
}

/// An item is refused for its event where it has none, or where that is null, an empty text, an
/// empty object or an empty array, and for no other event; the refusal names the item's number.
pub proof fn law_blank_events_are_refused(json: JsonView, n: usize)
    ensures
        json::field(json, "event"@) is None ==> events::event_error(json, n) == Some(
            ApiError::MissingEventField { event: n },
        ),
        json::field(json, "event"@) matches Some(event) ==> events::event_error(json, n) == match
            event {
            JsonView::Null => Some(ApiError::EmptyEventField { event: n }),
            JsonView::Text(s) => if s == Seq::<char>::empty() {
                Some(ApiError::EmptyEventField { event: n })
            } else {
                None
            },
            JsonView::Object(entries) => if entries == Seq::<(Seq<char>, JsonView)>::empty() {
                Some(ApiError::EmptyEventField { event: n })
            } else {
                None
            },
            JsonView::Array(items) => if items == Seq::<JsonView>::empty() {
                Some(ApiError::EmptyEventField { event: n })
            } else {
                None
            },
            JsonView::Bool(_) => None,
            JsonView::Number(_) => None,
        },
{
    match json::field(json, "event"@) {
        Some(JsonView::Text(s)) => {
            assert(s.len() == 0 ==> s =~= Seq::empty());
        },
        Some(JsonView::Object(entries)) => {
            assert(entries.len() == 0 ==> entries =~= Seq::empty());
        },
        Some(JsonView::Array(items)) => {
            assert(items.len() == 0 ==> items =~= Seq::empty());
        },
        _ => {},
    }
}

/// An item is refused for its event first, then for a time that cannot be used; what is no JSON
/// value is refused too; and nothing else is.
pub proof fn law_items_are_refused(input: InputView, n: usize)
    ensures
        events::item_error(None, n) == Some(ApiError::InvalidDataFormat { event: n }),
        events::event_error(input.json, n) is Some ==> events::item_error(Some(input), n)
            == events::event_error(input.json, n),
        events::event_error(input.json, n) is None ==> events::item_error(Some(input), n) == match
            input.time {
            EventTime::Unreadable => Some(ApiError::InvalidDataFormat { event: n }),
            EventTime::Stamp(t) => if t > 0x7fff_ffff_ffff_ffff {
                Some(ApiError::InvalidDataFormat { event: n })
            } else {
                None
            },
            EventTime::Absent => None,
            EventTime::Instant { secs: _, nanos: _ } => None,
        },
{
}

/// An iterator and its extractors show what they hold.
pub proof fn law_iterators_show_what_they_hold(iter: EventIterator, e: DefaultExtractor)
    ensures
        iter@.done == iter.done,
        iter@.events == iter.events,
        iter.channel is None ==> iter@.channel is None,
        iter.channel matches Some(v) ==> iter@.channel == Some(v@),
        iter@.time == iter.time,
        iter@.host == iter.host@,
        iter@.index == iter.index@,
        iter@.source == iter.source@,
        iter@.sourcetype == iter.sourcetype@,
        iter@.batch == iter.batch,
        iter.token is None ==> iter@.token is None,
        iter.token matches Some(token) ==> iter@.token == Some(token@),
        iter@.log_namespace == iter.log_namespace,
        iter@.auto_forward_metadata == iter.auto_forward_metadata,
        iter@.fix_bare_string_events == iter.fix_bare_string_events,
        iter@.auto_extract_timestamp == iter.auto_extract_timestamp,
        e@.field == e.field@,
        e.to_field is None ==> e@.to_field is None,
        e.to_field matches Some(path) ==> e@.to_field == Some(value::path_view(path@)),
        e.value is None ==> e@.value is None,
        e.value matches Some(v) ==> e@.value == Some(v@),
        e@.log_namespace == e.log_namespace,
{
}

} // verus!
