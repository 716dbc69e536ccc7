//! All that a log of the event endpoint holds by the default schema: for every name, what is there,
//! from what its JSON value and the values before it say.
use vstd::prelude::*;
use vstd::utf8::*;

use crate::event_laws;
use crate::event_time;
use crate::event_time::EventTime;
use crate::events;
use crate::events::IteratorView;
use crate::extractor;
use crate::extractor::ExtractorView;
use crate::json;
use crate::json::JsonView;
use crate::log_event;
use crate::log_event::{LegacyKeyView, LogNamespace, LogView};
use crate::log_laws;
use crate::raw_log_laws;
use crate::timestamp;
use crate::timestamp::Timestamp;
use crate::value;
use crate::value::ValueView;
use crate::value_laws;

verus! {

/// What an event itself has under a name in the Legacy namespace: an object its fields, but that
/// its `line` is the message where it is neither an object nor an array; any other event is the
/// message.
pub open spec fn own_field(event: JsonView, name: Seq<char>) -> Option<ValueView> {
    match event {
        JsonView::Object(entries) => {
            let line = json::field(event, "line"@);
            let is_message = line is Some && !(line->0 is Array) && !(line->0 is Object);
            if json::field(event, name) is Some && (name != "line"@ || !is_message) {
                Some(value::json_value(json::field(event, name)->0))
            } else if name == "message"@ && is_message {
                Some(value::json_value(line->0))
            } else {
                None
            }
        },
        _ => if name == "message"@ {
            Some(value::json_value(event))
        } else {
            None
        },
    }
}

/// What the `fields` field of a JSON value has under a name.
pub open spec fn field_added(json: JsonView, name: Seq<char>) -> Option<ValueView> {
    match json::field(json, "fields"@) {
        Some(fields) => match json::field(fields, name) {
            Some(v) => Some(value::json_value(v)),
            None => None,
        },
        None => None,
    }
}

/// The point in time of an event: the one that it gives, else the one that stands.
pub open spec fn own_time(iter: IteratorView, time: EventTime) -> Timestamp {
    match time {
        EventTime::Stamp(n) => timestamp::timestamp_of(n as int)->0,
        EventTime::Instant { secs, nanos } => Timestamp { secs, nanos },
        _ => log_laws::standing_time(iter),
    }
}

/// What metadata a log has by a name of this source, if any: index, source and source type by their
/// prefixed names, the host, the time, what `fields` add, and the channel. The first of these
/// counts.
pub open spec fn metadata_by_name(
    iter: IteratorView,
    json: JsonView,
    time: EventTime,
    name: Seq<char>,
) -> Option<ValueView> {
    let index = log_laws::remembered(json, "index"@, iter.index.value);
    let source = log_laws::remembered(json, "source"@, iter.source.value);
    let sourcetype = log_laws::remembered(json, "sourcetype"@, iter.sourcetype.value);
    let host = log_laws::remembered(json, "host"@, iter.host.value);
    if name == "splunk_index"@ && index is Some {
        index
    } else if name == "splunk_source"@ && source is Some {
        source
    } else if name == "splunk_sourcetype"@ && sourcetype is Some {
        sourcetype
    } else if name == "host"@ && host is Some {
        host
    } else if name == "timestamp"@ {
        Some(ValueView::Timestamp(own_time(iter, time)))
    } else if field_added(json, name) is Some {
        field_added(json, name)
    } else if name == "splunk_channel"@ {
        log_laws::remembered(json, "channel"@, iter.channel)
    } else {
        None
    }
}

/// What a log has at the root of its event over everything else, if anything: the mark for time
/// extraction, and index, source and source type where they are forwarded.
pub open spec fn mark_or_forwarded(
    iter: IteratorView,
    json: JsonView,
    name: Seq<char>,
) -> Option<ValueView> {
    if name == "auto_extract_timestamp"@ && iter.auto_extract_timestamp {
        Some(ValueView::Boolean(true))
    } else if !iter.auto_forward_metadata {
        None
    } else if name == "index"@ {
        log_laws::remembered(json, "index"@, iter.index.value)
    } else if name == "source"@ {
        log_laws::remembered(json, "source"@, iter.source.value)
    } else if name == "sourcetype"@ {
        log_laws::remembered(json, "sourcetype"@, iter.sourcetype.value)
    } else {
        None
    }
}

proof fn lemma_fields_by_name(entries: Seq<(Seq<char>, JsonView)>, name: Seq<char>)
    ensures
        value::json_fields(entries).dom().contains(name) <==> json::field(
            JsonView::Object(entries),
            name,
        ) is Some,
        json::field(JsonView::Object(entries), name) matches Some(v) ==> value::json_fields(
            entries,
        )[name] == value::json_value(v),
{
    let k = value_laws::law_names_stand_first_somewhere_or_nowhere(entries, name);
    if value_laws::is_first_named(entries, name, k) {
        value_laws::law_json_objects_keep_their_fields(entries, name, k);
    } else {
        value_laws::law_json_objects_get_no_other_fields(entries, name);
    }
}

proof fn lemma_bare_legacy(event: JsonView, name: Seq<char>)
    ensures
        events::legacy_log(log_laws::default_schema(), event).value is Object,
        value::field(events::legacy_log(log_laws::default_schema(), event).value, name)
            == own_field(event, name),
{
    log_laws::lemma_lengths();
    let empty = log_event::empty_log();
    match event {
        JsonView::Object(entries) => {
            lemma_fields_by_name(entries, name);
            lemma_fields_by_name(entries, "line"@);
            let v = value::json_value(json::field(event, "line"@)->0);
            value::lemma_put_one(empty.value, "line"@, v);
            value::lemma_put_one(empty.value, "message"@, v);
        },
        _ => {
            value::lemma_put_one(empty.value, "message"@, value::json_value(event));
        },
    }
}

proof fn lemma_legacy_extracted(e: ExtractorView, log: LogView, at: Seq<char>, name: Seq<char>)
    requires
        log.value is Object,
        e.log_namespace is Legacy,
        e.to_field == Some(seq![at]),
    ensures
        extractor::extracted(e, log).value is Object,
        value::field(extractor::extracted(e, log).value, name) == if name == at && e.value is Some {
            e.value
        } else {
            value::field(log.value, name)
        },
{
    match e.value {
        Some(v) => raw_log_laws::lemma_legacy_noted(log, at, seq![at], v),
        None => {},
    }
}

proof fn lemma_forwarded_by_name(
    log: LogView,
    at: Seq<char>,
    v: Option<ValueView>,
    name: Seq<char>,
)
    ensures
        value::field(events::forwarded(log, at, v).value, name) == if name == at && v is Some {
            v
        } else {
            value::field(log.value, name)
        },
{
    match v {
        Some(v) => value::lemma_put_one(log.value, at, v),
        None => {},
    }
}

/// What the request as a whole adds to a log goes over what stands there.
proof fn lemma_root_by_name(
    iter: IteratorView,
    json: JsonView,
    time: EventTime,
    log: LogView,
    name: Seq<char>,
)
    requires
        event_laws::is_whole(iter, log_laws::default_schema()),
    ensures
        ({
            let after = events::iterator_after(iter, json, time);
            let done = events::with_request_marks(iter, events::with_forwarded(after, log));
            value::field(done.value, name) == if mark_or_forwarded(iter, json, name) is Some {
                mark_or_forwarded(iter, json, name)
            } else {
                value::field(log.value, name)
            }
        }),
{
    log_laws::lemma_lengths();
    let after = events::iterator_after(iter, json, time);
    let a = events::forwarded(log, "index"@, after.index.value);
    let b = events::forwarded(a, "source"@, after.source.value);
    let c = events::forwarded(b, "sourcetype"@, after.sourcetype.value);
    lemma_forwarded_by_name(log, "index"@, after.index.value, name);
    lemma_forwarded_by_name(a, "source"@, after.source.value, name);
    lemma_forwarded_by_name(b, "sourcetype"@, after.sourcetype.value, name);
    let forwarded = events::with_forwarded(after, log);
    value::lemma_put_one(
        forwarded.value,
        "auto_extract_timestamp"@,
        ValueView::Boolean(true),
    );
}

/// In the Legacy namespace a log has, for every name: the mark for time extraction and what is
/// forwarded, else the metadata that goes by that name, else what the event itself has there, else,
/// as its `source_type`, the name of this source; and nothing else.
pub proof fn law_logs_of_the_legacy_namespace(
    iter: IteratorView,
    json: JsonView,
    event: JsonView,
    time: EventTime,
    now: Timestamp,
    name: Seq<char>,
)
    requires
        event_laws::is_whole(iter, log_laws::default_schema()),
        iter.log_namespace is Legacy,
        json::field(json, "event"@) == Some(event),
        time matches EventTime::Stamp(n) ==> n <= i64::MAX,
    ensures
        value::field(
            events::built_log(iter, log_laws::default_schema(), json, time, now).value,
            name,
        ) == if mark_or_forwarded(iter, json, name) is Some {
            mark_or_forwarded(iter, json, name)
        } else if metadata_by_name(iter, json, time, name) is Some {
            metadata_by_name(iter, json, time, name)
        } else if own_field(event, name) is Some {
            own_field(event, name)
        } else if name == "source_type"@ {
            Some(ValueView::Bytes(encode_utf8("splunk_hec_full"@)))
        } else {
            None
        },
{
    log_laws::lemma_lengths();
    let schema = log_laws::default_schema();
    let namespace = LogNamespace::Legacy;
    let after = events::iterator_after(iter, json, time);
    let bare = events::bare_log(iter, schema, json, now);
    lemma_bare_legacy(event, name);
    lemma_bare_legacy(event, "source_type"@);
    let kind = value::text_value("splunk_hec_full"@);
    raw_log_laws::lemma_legacy_noted(bare, "source_type"@, seq!["source_type"@], kind);
    let typed = events::with_source_type(namespace, schema, bare);
    let channel = log_laws::remembered(json, "channel"@, iter.channel);
    match channel {
        Some(v) => raw_log_laws::lemma_legacy_noted(
            typed,
            "splunk_channel"@,
            seq!["splunk_channel"@],
            v,
        ),
        None => {},
    }
    let named = events::with_channel(iter, json, typed);
    assert(named.value is Object);
    let filled = events::with_fields(namespace, json, named);
    match json::field(json, "fields"@) {
        Some(JsonView::Object(entries)) => lemma_fields_by_name(entries, name),
        _ => {},
    }
    assert(filled.value is Object);
    let t = event_time::moment(after.time);
    match time {
        EventTime::Stamp(n) => log_laws::law_whole_numbers_name_points_in_time(n as int),
        _ => {},
    }
    assert(t == own_time(iter, time));
    raw_log_laws::lemma_legacy_noted(
        filled,
        "timestamp"@,
        seq!["timestamp"@],
        ValueView::Timestamp(t),
    );
    let timed = events::with_time(namespace, schema, filled, t);
    let a = extractor::extracted(after.host, timed);
    let b = extractor::extracted(after.index, a);
    let c = extractor::extracted(after.source, b);
    let d = extractor::extracted(after.sourcetype, c);
    lemma_legacy_extracted(after.host, timed, "host"@, name);
    lemma_legacy_extracted(after.index, a, "splunk_index"@, name);
    lemma_legacy_extracted(after.source, b, "splunk_source"@, name);
    lemma_legacy_extracted(after.sourcetype, c, "splunk_sourcetype"@, name);
    assert(d == events::with_extracted(after, timed));
    lemma_root_by_name(iter, json, time, d, name);
}

/// What a log has beside its event, under the name of this source and a name below it.
spec fn beside(log: LogView, name: Seq<char>) -> Option<ValueView> {
    let fields = raw_log_laws::under(log.metadata, "splunk_hec_full"@);
    if fields.dom().contains(name) {
        Some(fields[name])
    } else {
        None
    }
}

proof fn lemma_vector_noted(log: LogView, at: Seq<char>, v: ValueView, name: Seq<char>)
    ensures
        ({
            let noted = log_event::noted(log, seq!["splunk_hec_full"@] + seq![at], v);
            &&& noted.value == log.value
            &&& beside(noted, name) == if name == at {
                Some(v)
            } else {
                beside(log, name)
            }
        }),
{
    raw_log_laws::lemma_noted_under(log, "splunk_hec_full"@, at, v);
}

proof fn lemma_vector_extracted(e: ExtractorView, log: LogView, at: Seq<char>, name: Seq<char>)
    requires
        e.log_namespace is Vector,
        e.to_field == Some(seq![at]),
    ensures
        extractor::extracted(e, log).value == log.value,
        beside(extractor::extracted(e, log), name) == if name == at && e.value is Some {
            e.value
        } else {
            beside(log, name)
        },
{
    match e.value {
        Some(v) => lemma_vector_noted(log, at, v, name),
        None => {},
    }
}

proof fn lemma_vector_fields(json: JsonView, log: LogView, name: Seq<char>)
    ensures
        ({
            let filled = events::with_fields(LogNamespace::Vector, json, log);
            &&& filled.value == log.value
            &&& beside(filled, name) == if field_added(json, name) is Some {
                field_added(json, name)
            } else {
                beside(log, name)
            }
        }),
{
    match json::field(json, "fields"@) {
        Some(JsonView::Object(entries)) => {
            let own = "splunk_hec_full"@;
            lemma_fields_by_name(entries, name);
            let inner = match value::field(log.metadata, own) {
                Some(inner) => inner,
                None => ValueView::Null,
            };
            value::lemma_put_one(
                log.metadata,
                own,
                value::merged(inner, value::json_fields(entries)),
            );
        },
        _ => {},
    }
}

proof fn lemma_bare_vector(
    iter: IteratorView,
    json: JsonView,
    event: JsonView,
    now: Timestamp,
    name: Seq<char>,
)
    requires
        iter.log_namespace is Vector,
        json::field(json, "event"@) == Some(event),
    ensures
        ({
            let schema = log_laws::default_schema();
            let bare = events::bare_log(iter, schema, json, now);
            let typed = events::with_source_type(LogNamespace::Vector, schema, bare);
            &&& beside(typed, name) is None
            &&& value::field(typed.value, name) == if iter.fix_bare_string_events && !(
            event is Object) {
                if name == "message"@ {
                    Some(value::json_value(event))
                } else {
                    None
                }
            } else {
                match json::field(event, name) {
                    Some(v) => Some(value::json_value(v)),
                    None => None,
                }
            }
        }),
{
    log_laws::lemma_lengths();
    let bare = events::bare_log(iter, log_laws::default_schema(), json, now);
    let v = value::json_value(event);
    value::lemma_put_one(log_event::empty_log().value, "message"@, v);
    match event {
        JsonView::Object(entries) => lemma_fields_by_name(entries, name),
        _ => {},
    }
    let first = if iter.fix_bare_string_events && !(event is Object) {
        log_event::inserted(log_event::empty_log(), seq!["message"@], v)
    } else {
        log_event::log_of(v)
    };
    raw_log_laws::lemma_noted_under(
        first,
        "vector"@,
        "ingest_timestamp"@,
        ValueView::Timestamp(now),
    );
    raw_log_laws::lemma_noted_under(
        bare,
        "vector"@,
        "source_type"@,
        value::text_value("splunk_hec_full"@),
    );
    let typed = events::with_source_type(
        LogNamespace::Vector,
        log_laws::default_schema(),
        bare,
    );
    let none = Map::<Seq<char>, ValueView>::empty();
    assert(raw_log_laws::under(first.metadata, "splunk_hec_full"@) == none);
    assert(raw_log_laws::under(bare.metadata, "splunk_hec_full"@) == none);
    assert(raw_log_laws::under(typed.metadata, "splunk_hec_full"@) == none);
}

proof fn lemma_metadata_by_name(
    iter: IteratorView,
    json: JsonView,
    time: EventTime,
    log: LogView,
    name: Seq<char>,
)
    requires
        event_laws::is_whole(iter, log_laws::default_schema()),
        iter.log_namespace is Vector,
        time matches EventTime::Stamp(n) ==> n <= i64::MAX,
        beside(log, name) is None,
    ensures
        ({
            let schema = log_laws::default_schema();
            let after = events::iterator_after(iter, json, time);
            let filled = events::with_fields(
                LogNamespace::Vector,
                json,
                events::with_channel(iter, json, log),
            );
            let timed = events::with_time(
                LogNamespace::Vector,
                schema,
                filled,
                event_time::moment(after.time),
            );
            let done = events::with_extracted(after, timed);
            &&& done.value == log.value
            &&& beside(done, name) == metadata_by_name(iter, json, time, name)
        }),
{
    log_laws::lemma_lengths();
    let namespace = LogNamespace::Vector;
    let after = events::iterator_after(iter, json, time);
    match log_laws::remembered(json, "channel"@, iter.channel) {
        Some(v) => lemma_vector_noted(log, "splunk_channel"@, v, name),
        None => {},
    }
    let named = events::with_channel(iter, json, log);
    let filled = events::with_fields(namespace, json, named);
    lemma_vector_fields(json, named, name);
    let t = event_time::moment(after.time);
    match time {
        EventTime::Stamp(n) => log_laws::law_whole_numbers_name_points_in_time(n as int),
        _ => {},
    }
    assert(t == own_time(iter, time));
    lemma_vector_noted(filled, "timestamp"@, ValueView::Timestamp(t), name);
    let timed = events::with_time(namespace, log_laws::default_schema(), filled, t);
    let a = extractor::extracted(after.host, timed);
    let b = extractor::extracted(after.index, a);
    let c = extractor::extracted(after.source, b);
    lemma_vector_extracted(after.host, timed, "host"@, name);
    lemma_vector_extracted(after.index, a, "splunk_index"@, name);
    lemma_vector_extracted(after.source, b, "splunk_source"@, name);
    lemma_vector_extracted(after.sourcetype, c, "splunk_sourcetype"@, name);
}

/// In the Vector namespace a log has, for every name: at the root of its event the mark for time
/// extraction and what is forwarded, else what the event itself has there, where an event that is
/// no object stands under `message` if bare events are to be avoided; and beside the event, under
/// the name of this source, the metadata that goes by that name; and nothing else.
pub proof fn law_logs_of_the_vector_namespace(
    iter: IteratorView,
    json: JsonView,
    event: JsonView,
    time: EventTime,
    now: Timestamp,
    name: Seq<char>,
)
    requires
        event_laws::is_whole(iter, log_laws::default_schema()),
        iter.log_namespace is Vector,
        json::field(json, "event"@) == Some(event),
        time matches EventTime::Stamp(n) ==> n <= i64::MAX,
    ensures
        ({
            let log = events::built_log(iter, log_laws::default_schema(), json, time, now);
            &&& value::field(log.value, name) == if mark_or_forwarded(iter, json, name) is Some {
                mark_or_forwarded(iter, json, name)
            } else if iter.fix_bare_string_events && !(event is Object) {
                if name == "message"@ {
                    Some(value::json_value(event))
                } else {
                    None
                }
            } else {
                match json::field(event, name) {
                    Some(v) => Some(value::json_value(v)),
                    None => None,
                }
            }
            &&& value::field(log.metadata, "splunk_hec_full"@) matches Some(inner) && value::field(
                inner,
                name,
            ) == metadata_by_name(iter, json, time, name)
        }),
{
    log_laws::lemma_lengths();
    let schema = log_laws::default_schema();
    let namespace = LogNamespace::Vector;
    let after = events::iterator_after(iter, json, time);
    let bare = events::bare_log(iter, schema, json, now);
    let typed = events::with_source_type(namespace, schema, bare);
    let filled = events::with_fields(namespace, json, events::with_channel(iter, json, typed));
    let timed = events::with_time(namespace, schema, filled, event_time::moment(after.time));
    let done = events::with_extracted(after, timed);
    lemma_bare_vector(iter, json, event, now, name);
    lemma_bare_vector(iter, json, event, now, "timestamp"@);
    lemma_metadata_by_name(iter, json, time, typed, name);
    lemma_metadata_by_name(iter, json, time, typed, "timestamp"@);
    lemma_root_by_name(iter, json, time, done, name);
    assert(beside(done, "timestamp"@) is Some);
}

} // verus!
