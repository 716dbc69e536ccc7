//! How the JSON values of a request become log events.
use vstd::prelude::*;

use crate::event_time;
use crate::event_time::{EventTime, Time};
use crate::extractor;
use crate::extractor::{DefaultExtractor, ExtractorView};
use crate::json;
use crate::json::{JsonValue, JsonView};
use crate::log_event;
use crate::log_event::{
    copy_key, path_of, LegacyKey, LegacyKeyView, LogEvent, LogNamespace, LogSchema, LogView,
    SchemaView,
};
use crate::response::ApiError;
use crate::text;
use crate::timestamp;
use crate::timestamp::{parse_timestamp, timestamp_opt, utc_now, Timestamp};
use crate::value;
use crate::value::{EventValue, ValueView};

verus! {

/// The event field for the channel of a request.
pub const CHANNEL: &'static str = "splunk_channel";

/// The event field for the index.
pub const INDEX: &'static str = "splunk_index";

/// The event field for the source.
pub const SOURCE: &'static str = "splunk_source";

/// The event field for the source type.
pub const SOURCETYPE: &'static str = "splunk_sourcetype";

/// Constructs one or more events from the JSON values of a request.
/// If errors, it's done with input.
#[derive(Debug)]
pub struct EventIterator {
    /// Whether there was an error
    pub done: bool,
    /// Count of sent events
    pub events: usize,
    /// Optional channel from headers
    pub channel: Option<EventValue>,
    /// Default time
    pub time: Time,
    /// Last extracted values
    pub host: DefaultExtractor,
    pub index: DefaultExtractor,
    pub source: DefaultExtractor,
    pub sourcetype: DefaultExtractor,
    /// Whether the delivery of the events is to be reported
    pub batch: bool,
    /// Splunk HEC Token for passthrough
    pub token: Option<String>,
    /// Lognamespace to put the events in
    pub log_namespace: LogNamespace,
    /// Whether to auto-forward metadata as event-level fields
    pub auto_forward_metadata: bool,
    /// Whether to fix bare string events
    pub fix_bare_string_events: bool,
    /// Whether auto_extract_timestamp was requested via URL query param
    pub auto_extract_timestamp: bool,
}

/// An iterator with its values as views.
pub struct IteratorView {
    pub done: bool,
    pub events: usize,
    pub channel: Option<ValueView>,
    pub time: Time,
    pub host: ExtractorView,
    pub index: ExtractorView,
    pub source: ExtractorView,
    pub sourcetype: ExtractorView,
    pub batch: bool,
    pub token: Option<Seq<char>>,
    pub log_namespace: LogNamespace,
    pub auto_forward_metadata: bool,
    pub fix_bare_string_events: bool,
    pub auto_extract_timestamp: bool,
}

impl View for EventIterator {
    type V = IteratorView;

    open spec fn view(&self) -> IteratorView {
        IteratorView {
            done: self.done,
            events: self.events,
            channel: extractor::maybe_view(self.channel),
            time: self.time,
            host: self.host@,
            index: self.index@,
            source: self.source@,
            sourcetype: self.sourcetype@,
            batch: self.batch,
            token: text::text_of(self.token),
            log_namespace: self.log_namespace,
            auto_forward_metadata: self.auto_forward_metadata,
            fix_bare_string_events: self.fix_bare_string_events,
            auto_extract_timestamp: self.auto_extract_timestamp,
        }
    }
}

/// Whether an `event` field says nothing: null, or an empty text, object or array.
pub open spec fn is_blank(event: JsonView) -> bool {
    match event {
        JsonView::Null => true,
        JsonView::Text(s) => s.len() == 0,
        JsonView::Object(entries) => entries.len() == 0,
        JsonView::Array(items) => items.len() == 0,
        _ => false,
    }
}

/// What is wrong with the `event` field of a JSON value, if anything is. `n` events came before.
pub open spec fn event_error(json: JsonView, n: usize) -> Option<ApiError> {
    match json::field(json, "event"@) {
        None => Some(ApiError::MissingEventField { event: n }),
        Some(event) => if is_blank(event) {
            Some(ApiError::EmptyEventField { event: n })
        } else {
            None
        },
    }
}

/// The log for an `event` field in the Vector namespace. With `fix`, what is no object stands
/// under `message`.
pub open spec fn vector_log(
    schema: SchemaView,
    fix: bool,
    event: JsonView,
    now: Timestamp,
) -> LogView {
    let v = value::json_value(event);
    let log = if fix && !(event is Object) {
        log_event::inserted(log_event::empty_log(), seq!["message"@], v)
    } else {
        log_event::log_of(v)
    };
    log_event::vector_noted(
        LogNamespace::Vector,
        log,
        schema.timestamp_key,
        seq!["ingest_timestamp"@],
        ValueView::Timestamp(now),
    )
}

/// The log that the `line` of an object starts with: under `line` itself where it is an array or
/// an object, else as the message.
pub open spec fn line_log(schema: SchemaView, entries: Seq<(Seq<char>, JsonView)>) -> LogView {
    match json::lookup(entries, "line"@) {
        Some(JsonView::Array(items)) => log_event::inserted(
            log_event::empty_log(),
            seq!["line"@],
            value::json_value(JsonView::Array(items)),
        ),
        Some(JsonView::Object(fields)) => log_event::inserted(
            log_event::empty_log(),
            seq!["line"@],
            value::json_value(JsonView::Object(fields)),
        ),
        Some(line) => log_event::maybe_inserted(
            log_event::empty_log(),
            schema.message_key,
            value::json_value(line),
        ),
        None => log_event::empty_log(),
    }
}

/// The log for an `event` field in the Legacy namespace: the fields of an object at the root,
/// with its `line` as the message, and anything else as the message.
pub open spec fn legacy_log(schema: SchemaView, event: JsonView) -> LogView {
    match event {
        JsonView::Object(entries) => {
            let log = line_log(schema, entries);
            LogView {
                value: value::merged(log.value, value::json_fields(entries).remove("line"@)),
                ..log
            }
        },
        _ => log_event::maybe_inserted(
            log_event::empty_log(),
            schema.message_key,
            value::json_value(event),
        ),
    }
}

impl EventIterator {
    /// Build the log event for the vector namespace.
    /// With fix_bare_string_events: wraps non-object events into {"message": value}.
    /// This prevents scalar values (string, integer, float, boolean, array)
    /// from being destroyed when metadata fields (index, sourcetype, etc.) are
    /// inserted at the event root level.
    pub fn build_log_vector(&self, schema: &LogSchema, json: &JsonValue, now: Timestamp) -> (log:
        Result<LogEvent, ApiError>)
        ensures
            match log {
                Ok(log) => {
                    &&& event_error(json@, self.events) is None
                    &&& log@ == vector_log(
                        schema@,
                        self.fix_bare_string_events,
                        json::field(json@, "event"@)->0,
                        now,
                    )
                },
                Err(e) => event_error(json@, self.events) == Some(e),
            },
    {
        match json.get("event") {
            Some(event) => {
                if blank(event) {
                    return Err(ApiError::EmptyEventField { event: self.events });
                }
                let v = EventValue::from_json(event);
                let mut log = if self.fix_bare_string_events && !is_object(event) {
                    let mut wrapped = LogEvent::default();
                    wrapped.insert_field("message", v);
                    wrapped
                } else {
                    LogEvent::from_value(v)
                };
                LogNamespace::Vector.insert_vector_metadata(
                    &mut log,
                    &schema.timestamp_key,
                    &path_of("ingest_timestamp"),
                    EventValue::Timestamp(now),
                );
                Ok(log)
            },
            None => Err(ApiError::MissingEventField { event: self.events }),
        }
    }

    /// Build the log event for the legacy namespace.
    pub fn build_log_legacy(&self, schema: &LogSchema, json: &JsonValue) -> (log: Result<
        LogEvent,
        ApiError,
    >)
        ensures
            match log {
                Ok(log) => {
                    &&& event_error(json@, self.events) is None
                    &&& log@ == legacy_log(schema@, json::field(json@, "event"@)->0)
                },
                Err(e) => event_error(json@, self.events) == Some(e),
            },
    {
        match json.get("event") {
            Some(event) => {
                if blank(event) {
                    return Err(ApiError::EmptyEventField { event: self.events });
                }
                match event {
                    JsonValue::Object(entries) => {
                        let mut log = LogEvent::default();
                        match event.get("line") {
                            Some(line) => {
                                if is_object(line) || is_array(line) {
                                    log.insert_field("line", EventValue::from_json(line));
                                } else {
                                    log.maybe_insert(
                                        &schema.message_key,
                                        EventValue::from_json(line),
                                    );
                                }
                            },
                            None => {},
                        }
                        insert_all_but(&mut log, entries, "line");
                        Ok(log)
                    },
                    _ => {
                        let mut log = LogEvent::default();
                        log.maybe_insert(&schema.message_key, EventValue::from_json(event));
                        Ok(log)
                    },
                }
            },
            None => Err(ApiError::MissingEventField { event: self.events }),
        }
    }
}

/// Whether a JSON value is an object.
fn is_object(json: &JsonValue) -> (b: bool)
    ensures
        b == (json@ is Object),
{
    match json {
        JsonValue::Object(_) => true,
        _ => false,
    }
}

/// Whether a JSON value is an array.
fn is_array(json: &JsonValue) -> (b: bool)
    ensures
        b == (json@ is Array),
{
    match json {
        JsonValue::Array(_) => true,
        _ => false,
    }
}

/// Whether an `event` field says nothing.
fn blank(event: &JsonValue) -> (b: bool)
    ensures
        b == is_blank(event@),
{
    match event {
        JsonValue::Null => true,
        JsonValue::Text(s) => {
            proof {
                reveal_strlit("");
                assert(s@.len() == 0 ==> s@ =~= ""@);
            }
            text::str_eq(s.as_str(), "")
        },
        JsonValue::Object(entries) => {
            proof {
                json::lemma_entries_view(entries@);
            }
            entries.len() == 0
        },
        JsonValue::Array(items) => {
            proof {
                json::lemma_items_view(items@);
            }
            items.len() == 0
        },
        _ => false,
    }
}

/// Puts the entries of an object at the root of an event, but for those of one name.
fn insert_all_but(log: &mut LogEvent, entries: &Vec<(String, JsonValue)>, name: &str)
    ensures
        final(log)@ == (LogView {
            value: value::merged(
                old(log)@.value,
                value::json_fields(json::entries_view(entries@)).remove(name@),
            ),
            ..old(log)@
        }),
{
    let ghost views = json::entries_view(entries@);
    proof {
        json::lemma_entries_view(entries@);
    }
    let mut i: usize = entries.len();
    assert(value::json_fields(views.subrange(i as int, views.len() as int)).remove(name@)
        =~= Map::empty());
    while i > 0
        invariant
            i <= entries.len(),
            views.len() == entries.len(),
            forall|j: int|
                0 <= j < entries@.len() ==> #[trigger] views[j] == (
                    entries@[j].0@,
                    entries@[j].1@,
                ),
            log@ == (LogView {
                value: value::merged(
                    old(log)@.value,
                    value::json_fields(views.subrange(i as int, views.len() as int)).remove(name@),
                ),
                ..old(log)@
            }),
        decreases i,
    {
        i = i - 1;
        let ghost rest = views.subrange(i + 1, views.len() as int);
        let ghost here = views.subrange(i as int, views.len() as int);
        assert(here.subrange(1, here.len() as int) =~= rest);
        assert(here[0] == views[i as int]);
        let ghost fields = value::json_fields(rest).remove(name@);
        if text::str_eq(entries[i].0.as_str(), name) {
            assert(value::json_fields(here).remove(name@) =~= fields);
        } else {
            let v = EventValue::from_json(&entries[i].1);
            proof {
                value::lemma_merged_insert(old(log)@.value, fields, entries@[i as int].0@, v@);
                assert(value::json_fields(here).remove(name@) =~= fields.insert(
                    entries@[i as int].0@,
                    v@,
                ));
            }
            log.insert_field(entries[i].0.as_str(), v);
        }
    }
    assert(views.subrange(0, views.len() as int) =~= views);
}

/// The log for the `event` field of a JSON value.
pub open spec fn bare_log(
    iter: IteratorView,
    schema: SchemaView,
    json: JsonView,
    now: Timestamp,
) -> LogView {
    let event = json::field(json, "event"@)->0;
    match iter.log_namespace {
        LogNamespace::Vector => vector_log(schema, iter.fix_bare_string_events, event, now),
        LogNamespace::Legacy => legacy_log(schema, event),
    }
}

/// The log with the kind of source it came from.
pub open spec fn with_source_type(
    namespace: LogNamespace,
    schema: SchemaView,
    log: LogView,
) -> LogView {
    log_event::vector_noted(
        namespace,
        log,
        schema.source_type_key,
        seq!["source_type"@],
        value::text_value(log_event::NAME@),
    )
}

/// The log with a channel: the one that the JSON value names, else the one of the request.
pub open spec fn with_channel(iter: IteratorView, json: JsonView, log: LogView) -> LogView {
    let channel = match json::field(json, "channel"@) {
        Some(JsonView::Text(s)) => Some(value::text_value(s)),
        _ => iter.channel,
    };
    match channel {
        Some(v) => log_event::source_noted(
            iter.log_namespace,
            log,
            Some(LegacyKeyView::Overwrite(seq![CHANNEL@])),
            seq![CHANNEL@],
            v,
        ),
        None => log,
    }
}

/// The log with these fields: in the Legacy namespace at its root, in the Vector namespace in the
/// metadata of this source.
pub open spec fn fields_noted(
    namespace: LogNamespace,
    log: LogView,
    fields: Map<Seq<char>, ValueView>,
) -> LogView {
    match namespace {
        LogNamespace::Legacy => LogView { value: value::merged(log.value, fields), ..log },
        LogNamespace::Vector => LogView {
            metadata: value::merged_under(log.metadata, log_event::NAME@, fields),
            ..log
        },
    }
}

/// The log with what the `fields` field of a JSON value holds.
pub open spec fn with_fields(namespace: LogNamespace, json: JsonView, log: LogView) -> LogView {
    match json::field(json, "fields"@) {
        Some(JsonView::Object(entries)) => fields_noted(
            namespace,
            log,
            value::json_fields(entries),
        ),
        _ => log,
    }
}

/// The log with its time.
pub open spec fn with_time(
    namespace: LogNamespace,
    schema: SchemaView,
    log: LogView,
    t: Timestamp,
) -> LogView {
    log_event::source_noted(
        namespace,
        log,
        match schema.timestamp_key {
            Some(key) => Some(LegacyKeyView::Overwrite(key)),
            None => None,
        },
        seq!["timestamp"@],
        ValueView::Timestamp(t),
    )
}

/// The log with what the extractors hold: host, index, source and source type.
pub open spec fn with_extracted(iter: IteratorView, log: LogView) -> LogView {
    extractor::extracted(
        iter.sourcetype,
        extractor::extracted(
            iter.source,
            extractor::extracted(iter.index, extractor::extracted(iter.host, log)),
        ),
    )
}

/// The log with a field at its root, where there is a value for it.
pub open spec fn forwarded(log: LogView, name: Seq<char>, v: Option<ValueView>) -> LogView {
    match v {
        Some(v) => log_event::inserted(log, seq![name], v),
        None => log,
    }
}

/// The log with index, source and source type at its root too, where they are forwarded.
pub open spec fn with_forwarded(iter: IteratorView, log: LogView) -> LogView {
    if iter.auto_forward_metadata {
        forwarded(
            forwarded(
                forwarded(log, "index"@, iter.index.value),
                "source"@,
                iter.source.value,
            ),
            "sourcetype"@,
            iter.sourcetype.value,
        )
    } else {
        log
    }
}

/// The log with what the request as a whole adds: the token, the flag for time extraction, and
/// the wish that its delivery be reported.
pub open spec fn with_request_marks(iter: IteratorView, log: LogView) -> LogView {
    let log = match iter.token {
        Some(token) => LogView { hec_token: Some(token), ..log },
        None => log,
    };
    let log = if iter.auto_extract_timestamp {
        log_event::inserted(log, seq!["auto_extract_timestamp"@], ValueView::Boolean(true))
    } else {
        log
    };
    if iter.batch {
        LogView { notify: true, ..log }
    } else {
        log
    }
}

/// The iterator after an event.
pub open spec fn iterator_after(
    iter: IteratorView,
    json: JsonView,
    time: EventTime,
) -> IteratorView {
    IteratorView {
        events: (iter.events + 1) as usize,
        time: event_time::time_after(iter.time, time),
        host: extractor::extractor_after(iter.host, json),
        index: extractor::extractor_after(iter.index, json),
        source: extractor::extractor_after(iter.source, json),
        sourcetype: extractor::extractor_after(iter.sourcetype, json),
        ..iter
    }
}

/// The iterator after an error.
pub open spec fn finished(iter: IteratorView) -> IteratorView {
    IteratorView { done: true, ..iter }
}

/// What is wrong with a JSON value and its time, if anything is.
pub open spec fn input_error(json: JsonView, time: EventTime, n: usize) -> Option<ApiError> {
    match event_error(json, n) {
        Some(e) => Some(e),
        None => if event_time::is_unusable(time) {
            Some(ApiError::InvalidDataFormat { event: n })
        } else {
            None
        },
    }
}

/// The log for a JSON value that nothing is wrong with.
pub open spec fn built_log(
    iter: IteratorView,
    schema: SchemaView,
    json: JsonView,
    time: EventTime,
    now: Timestamp,
) -> LogView {
    let namespace = iter.log_namespace;
    let after = iterator_after(iter, json, time);
    let log = with_source_type(namespace, schema, bare_log(iter, schema, json, now));
    let log = with_fields(namespace, json, with_channel(iter, json, log));
    let log = with_time(namespace, schema, log, event_time::moment(after.time));
    with_request_marks(iter, with_forwarded(after, with_extracted(after, log)))
}

/// Adds the entries of an object to the metadata of a log.
fn insert_fields(
    namespace: LogNamespace,
    log: &mut LogEvent,
    entries: &Vec<(String, JsonValue)>,
)
    ensures
        final(log)@ == fields_noted(
            namespace,
            old(log)@,
            value::json_fields(json::entries_view(entries@)),
        ),
{
    let ghost views = json::entries_view(entries@);
    proof {
        json::lemma_entries_view(entries@);
    }
    let mut i: usize = entries.len();
    assert(value::json_fields(views.subrange(i as int, views.len() as int)) =~= Map::empty());
    while i > 0
        invariant
            i <= entries.len(),
            views.len() == entries.len(),
            forall|j: int|
                0 <= j < entries@.len() ==> #[trigger] views[j] == (
                    entries@[j].0@,
                    entries@[j].1@,
                ),
            log@ == fields_noted(
                namespace,
                old(log)@,
                value::json_fields(views.subrange(i as int, views.len() as int)),
            ),
        decreases i,
    {
        i = i - 1;
        let ghost rest = views.subrange(i + 1, views.len() as int);
        let ghost here = views.subrange(i as int, views.len() as int);
        assert(here.subrange(1, here.len() as int) =~= rest);
        assert(here[0] == views[i as int]);
        let ghost fields = value::json_fields(rest);
        let v = EventValue::from_json(&entries[i].1);
        let key = path_of(entries[i].0.as_str());
        proof {
            let name = entries@[i as int].0@;
            value::lemma_merged_insert(old(log)@.value, fields, name, v@);
            value::lemma_merged_under_insert(
                old(log)@.metadata,
                log_event::NAME@,
                fields,
                name,
                v@,
            );
        }
        namespace.insert_source_metadata(log, Some(LegacyKey::Overwrite(&key)), &key, v);
    }
    assert(views.subrange(0, views.len() as int) =~= views);
}

/// Adds a field at the root of an event, where there is a value for it.
fn forward(log: &mut LogEvent, name: &str, v: &Option<EventValue>)
    ensures
        final(log)@ == forwarded(old(log)@, name@, extractor::maybe_view(*v)),
{
    match v {
        Some(v) => log.insert_field(name, v.clone()),
        None => {},
    }
}

impl EventIterator {
    /// Adds the channel to a log: the one that the JSON value names, else the one of the request.
    fn add_channel(&self, log: &mut LogEvent, json: &JsonValue)
        ensures
            final(log)@ == with_channel(self@, json@, old(log)@),
    {
        let channel = match json.get("channel") {
            Some(JsonValue::Text(guid)) => Some(EventValue::text(guid.as_str())),
            _ => match &self.channel {
                Some(guid) => Some(guid.clone()),
                None => None,
            },
        };
        match channel {
            Some(guid) => {
                let path = path_of(CHANNEL);
                self.log_namespace.insert_source_metadata(
                    log,
                    Some(LegacyKey::Overwrite(&path)),
                    &path,
                    guid,
                );
            },
            None => {},
        }
    }

    /// Adds what the `fields` field holds to a log.
    fn add_fields(&self, log: &mut LogEvent, json: &JsonValue)
        ensures
            final(log)@ == with_fields(self.log_namespace, json@, old(log)@),
    {
        match json.get("fields") {
            Some(JsonValue::Object(entries)) => insert_fields(self.log_namespace, log, entries),
            _ => {},
        }
    }

    /// Takes over the time that an event was given, if it can be used.
    fn take_time(&mut self, time: EventTime) -> (taken: bool)
        requires
            !event_time::is_out_of_calendar(time),
        ensures
            taken == !event_time::is_unusable(time),
            final(self)@ == if taken {
                (IteratorView { time: event_time::time_after(old(self).time, time), ..old(self)@ })
            } else {
                old(self)@
            },
    {
        match time {
            EventTime::Absent => true,
            EventTime::Unreadable => false,
            EventTime::Stamp(n) => {
                if n > i64::MAX as u64 {
                    return false;
                }
                match parse_timestamp(n as i64) {
                    Some(t) => {
                        self.time = Time::Provided(t);
                        true
                    },
                    None => false,
                }
            },
            EventTime::Instant { secs, nanos } => {
                match timestamp_opt(secs, nanos) {
                    Some(t) => {
                        self.time = Time::Provided(t);
                        true
                    },
                    None => false,
                }
            },
        }
    }

    /// Adds what the extractors hold to a log, after they have seen the JSON value.
    fn add_extracted(&mut self, log: &mut LogEvent, json: &JsonValue)
        ensures
            final(self)@ == (IteratorView {
                host: extractor::extractor_after(old(self)@.host, json@),
                index: extractor::extractor_after(old(self)@.index, json@),
                source: extractor::extractor_after(old(self)@.source, json@),
                sourcetype: extractor::extractor_after(old(self)@.sourcetype, json@),
                ..old(self)@
            }),
            final(log)@ == with_forwarded(final(self)@, with_extracted(final(self)@, old(log)@)),
    {
        self.host.extract(log, json);
        self.index.extract(log, json);
        self.source.extract(log, json);
        self.sourcetype.extract(log, json);
        if self.auto_forward_metadata {
            forward(log, "index", &self.index.value);
            forward(log, "source", &self.source.value);
            forward(log, "sourcetype", &self.sourcetype.value);
        }
    }

    /// Adds what the request as a whole adds to a log.
    fn add_request_marks(&self, log: &mut LogEvent)
        ensures
            final(log)@ == with_request_marks(self@, old(log)@),
    {
        match &self.token {
            Some(token) => {
                log.hec_token = Some(token.clone());
            },
            None => {},
        }
        if self.auto_extract_timestamp {
            log.insert_field("auto_extract_timestamp", EventValue::Boolean(true));
        }
        if self.batch {
            log.notify = true;
        }
    }

    /// Builds the event for a JSON value and the time it was given.
    fn build_event(
        &mut self,
        schema: &LogSchema,
        json: &JsonValue,
        time: EventTime,
        now: Timestamp,
    ) -> (event: Result<LogEvent, ApiError>)
        requires
            old(self).events < usize::MAX,
            event_error(json@, old(self).events) is None ==> !event_time::is_out_of_calendar(time),
        ensures
            match event {
                Ok(log) => {
                    &&& input_error(json@, time, old(self).events) is None
                    &&& log@ == built_log(old(self)@, schema@, json@, time, now)
                    &&& final(self)@ == iterator_after(old(self)@, json@, time)
                },
                Err(e) => {
                    &&& input_error(json@, time, old(self).events) == Some(e)
                    &&& final(self)@ == old(self)@
                },
            },
    {
        let namespace = self.log_namespace;
        let built = match namespace {
            LogNamespace::Vector => self.build_log_vector(schema, json, now),
            LogNamespace::Legacy => self.build_log_legacy(schema, json),
        };
        let mut log = match built {
            Ok(log) => log,
            Err(e) => return Err(e),
        };
        namespace.insert_vector_metadata(
            &mut log,
            &schema.source_type_key,
            &path_of("source_type"),
            EventValue::text(log_event::NAME),
        );
        self.add_channel(&mut log, json);
        self.add_fields(&mut log, json);
        if !self.take_time(time) {
            return Err(ApiError::InvalidDataFormat { event: self.events });
        }
        let timestamp = match self.time {
            Time::Provided(t) => t,
            Time::Now(t) => t,
        };
        insert_time(namespace, schema, &mut log, timestamp);
        self.add_extracted(&mut log, json);
        self.add_request_marks(&mut log);
        self.events = self.events + 1;
        Ok(log)
    }
}

/// Adds its time to a log.
pub fn insert_time(namespace: LogNamespace, schema: &LogSchema, log: &mut LogEvent, t: Timestamp)
    ensures
        final(log)@ == with_time(namespace, schema@, old(log)@, t),
{
    let legacy_key = match &schema.timestamp_key {
        Some(key) => Some(LegacyKey::Overwrite(key)),
        None => None,
    };
    namespace.insert_source_metadata(
        log,
        legacy_key,
        &path_of("timestamp"),
        EventValue::Timestamp(t),
    );
}

/// What an iterator starts from.
#[derive(Debug)]
pub struct EventIteratorGenerator {
    pub channel: Option<String>,
    pub batch: bool,
    pub token: Option<String>,
    pub log_namespace: LogNamespace,
    /// The address of the peer
    pub remote: Option<String>,
    /// The address that the request says it was forwarded for
    pub remote_addr: Option<String>,
    pub auto_forward_metadata: bool,
    pub fix_bare_string_events: bool,
    pub auto_extract_timestamp: bool,
}

/// What an iterator starts from, with texts as sequences.
pub struct GeneratorView {
    pub channel: Option<Seq<char>>,
    pub batch: bool,
    pub token: Option<Seq<char>>,
    pub log_namespace: LogNamespace,
    pub remote: Option<Seq<char>>,
    pub remote_addr: Option<Seq<char>>,
    pub auto_forward_metadata: bool,
    pub fix_bare_string_events: bool,
    pub auto_extract_timestamp: bool,
}

impl View for EventIteratorGenerator {
    type V = GeneratorView;

    open spec fn view(&self) -> GeneratorView {
        GeneratorView {
            channel: text::text_of(self.channel),
            batch: self.batch,
            token: text::text_of(self.token),
            log_namespace: self.log_namespace,
            remote: text::text_of(self.remote),
            remote_addr: text::text_of(self.remote_addr),
            auto_forward_metadata: self.auto_forward_metadata,
            fix_bare_string_events: self.fix_bare_string_events,
            auto_extract_timestamp: self.auto_extract_timestamp,
        }
    }
}

/// The value of an optional text.
pub open spec fn maybe_text(s: Option<Seq<char>>) -> Option<ValueView> {
    match s {
        Some(s) => Some(value::text_value(s)),
        None => None,
    }
}

/// The first of two optional texts that is there.
pub open spec fn first_of(a: Option<Seq<char>>, b: Option<Seq<char>>) -> Option<Seq<char>> {
    match a {
        Some(_) => a,
        None => b,
    }
}

/// An extractor of a field that starts with a value.
pub open spec fn new_extractor(
    field: Seq<char>,
    to_field: Option<Seq<Seq<char>>>,
    v: Option<ValueView>,
    log_namespace: LogNamespace,
) -> ExtractorView {
    ExtractorView { field, to_field, value: v, log_namespace }
}

/// The iterator at its start: the host is who the request was forwarded for, else the peer.
pub open spec fn iterator_start(
    f: GeneratorView,
    schema: SchemaView,
    now: Timestamp,
) -> IteratorView {
    let namespace = f.log_namespace;
    IteratorView {
        done: false,
        events: 0,
        channel: maybe_text(f.channel),
        time: Time::Now(now),
        host: new_extractor(
            "host"@,
            schema.host_key,
            maybe_text(first_of(f.remote_addr, f.remote)),
            namespace,
        ),
        index: new_extractor("index"@, Some(seq![INDEX@]), None, namespace),
        source: new_extractor("source"@, Some(seq![SOURCE@]), None, namespace),
        sourcetype: new_extractor("sourcetype"@, Some(seq![SOURCETYPE@]), None, namespace),
        batch: f.batch,
        token: f.token,
        log_namespace: namespace,
        auto_forward_metadata: f.auto_forward_metadata,
        fix_bare_string_events: f.fix_bare_string_events,
        auto_extract_timestamp: f.auto_extract_timestamp,
    }
}

/// A JSON value of a request, and the time that it gives.
#[derive(Debug)]
pub struct Input {
    pub json: JsonValue,
    pub time: EventTime,
}

/// An input with its JSON value as a view.
pub struct InputView {
    pub json: JsonView,
    pub time: EventTime,
}

impl View for Input {
    type V = InputView;

    open spec fn view(&self) -> InputView {
        InputView { json: self.json@, time: self.time }
    }
}

/// An item of a request: an input, or `None` where the request holds no JSON value.
pub open spec fn item_view(item: Option<Input>) -> Option<InputView> {
    match item {
        Some(input) => Some(input@),
        None => None,
    }
}

/// The items of a request.
pub open spec fn items_view(items: Seq<Option<Input>>) -> Seq<Option<InputView>> {
    items.map_values(|item: Option<Input>| item_view(item))
}

/// What is wrong with an item, if anything is. `n` events came before.
pub open spec fn item_error(item: Option<InputView>, n: usize) -> Option<ApiError> {
    match item {
        Some(input) => input_error(input.json, input.time, n),
        None => Some(ApiError::InvalidDataFormat { event: n }),
    }
}

/// Whether an item would need a time that the calendar does not have.
pub open spec fn needs_missing_time(item: Option<InputView>) -> bool {
    match item {
        Some(input) => event_error(input.json, 0) is None && event_time::is_out_of_calendar(
            input.time,
        ),
        None => false,
    }
}

/// What an iterator is offered: an item, or `None` at their end.
pub open spec fn offered(item: Option<&Option<Input>>) -> Option<Option<InputView>> {
    match item {
        Some(item) => Some(item_view(*item)),
        None => None,
    }
}

/// What an iterator gives: an event or an error, or `None` where there is neither.
pub open spec fn given(event: Option<Result<LogEvent, ApiError>>) -> Option<
    Result<LogView, ApiError>,
> {
    match event {
        Some(Ok(log)) => Some(Ok(log@)),
        Some(Err(e)) => Some(Err(e)),
        None => None,
    }
}

/// Whether an iterator can take what it is offered: it can count one more event, and the calendar
/// has the time that the event needs. One that is done takes anything.
pub open spec fn is_takeable(iter: IteratorView, item: Option<Option<InputView>>) -> bool {
    match item {
        Some(item) => iter.done || (iter.events < usize::MAX && !needs_missing_time(item)),
        None => true,
    }
}

/// What an iterator gives for what it is offered, and the iterator after that. After an error it
/// gives nothing any more.
pub open spec fn next_of(
    iter: IteratorView,
    schema: SchemaView,
    item: Option<Option<InputView>>,
    now: Timestamp,
) -> (Option<Result<LogView, ApiError>>, IteratorView) {
    if iter.done {
        (None, iter)
    } else {
        match item {
            None => if iter.events == 0 {
                (Some(Err(ApiError::NoData)), finished(iter))
            } else {
                (None, iter)
            },
            Some(item) => match item_error(item, iter.events) {
                Some(e) => (Some(Err(e)), finished(iter)),
                None => {
                    let input = item->0;
                    (
                        Some(Ok(built_log(iter, schema, input.json, input.time, now))),
                        iterator_after(iter, input.json, input.time),
                    )
                },
            },
        }
    }
}

impl EventIterator {
    /// The iterator at its start.
    pub fn from(f: EventIteratorGenerator, schema: &LogSchema, now: Timestamp) -> (iter: Self)
        ensures
            iter@ == iterator_start(f@, schema@, now),
    {
        let namespace = f.log_namespace;
        let host = match f.remote_addr {
            Some(addr) => Some(EventValue::text(addr.as_str())),
            None => match f.remote {
                Some(addr) => Some(EventValue::text(addr.as_str())),
                None => None,
            },
        };
        EventIterator {
            done: false,
            events: 0,
            channel: match f.channel {
                Some(channel) => Some(EventValue::text(channel.as_str())),
                None => None,
            },
            time: Time::Now(now),
            host: DefaultExtractor::new_with("host", copy_key(&schema.host_key), host, namespace),
            index: DefaultExtractor::new("index", Some(path_of(INDEX)), namespace),
            source: DefaultExtractor::new("source", Some(path_of(SOURCE)), namespace),
            sourcetype: DefaultExtractor::new("sourcetype", Some(path_of(SOURCETYPE)), namespace),
            batch: f.batch,
            token: f.token,
            log_namespace: namespace,
            auto_forward_metadata: f.auto_forward_metadata,
            fix_bare_string_events: f.fix_bare_string_events,
            auto_extract_timestamp: f.auto_extract_timestamp,
        }
    }

    /// The event for the next item, or what is wrong with it. At the end of the items there is no
    /// event, which is wrong where there was none before. After an error there is nothing any
    /// more.
    pub fn next(
        &mut self,
        schema: &LogSchema,
        item: Option<&Option<Input>>,
        now: Timestamp,
    ) -> (event: Option<Result<LogEvent, ApiError>>)
        requires
            is_takeable(old(self)@, offered(item)),
        ensures
            (given(event), final(self)@) == next_of(old(self)@, schema@, offered(item), now),
            old(self)@.done ==> event is None && final(self)@ == old(self)@,
    {
        if self.done {
            return None;
        }
        let event = match item {
            Some(Some(input)) => Some(self.build_event(schema, &input.json, input.time, now)),
            Some(None) => Some(Err(ApiError::InvalidDataFormat { event: self.events })),
            None => if self.events == 0 {
                Some(Err(ApiError::NoData))
            } else {
                None
            },
        };
        match &event {
            Some(Err(_)) => {
                self.done = true;
            },
            _ => {},
        }
        event
    }

    /// Whether the iterator can take what it is offered.
    pub fn can_take(&self, item: Option<&Option<Input>>) -> (b: bool)
        ensures
            b == is_takeable(self@, offered(item)),
    {
        match item {
            Some(item) => self.done || (self.events < usize::MAX && !lacks_time(item)),
            None => true,
        }
    }
}

/// How far the items of a request have been worked through.
pub struct Progress {
    pub iter: IteratorView,
    pub events: Seq<LogView>,
    pub error: Option<ApiError>,
}

/// The progress after one more item: the iterator was offered it.
pub open spec fn stepped(
    before: Progress,
    schema: SchemaView,
    item: Option<InputView>,
    now: Timestamp,
) -> Progress {
    let (event, iter) = next_of(before.iter, schema, Some(item), now);
    match event {
        Some(Ok(log)) => Progress { iter, events: before.events.push(log), error: None },
        Some(Err(e)) => Progress { iter, error: Some(e), ..before },
        None => before,
    }
}

/// The progress after the first `n` items. Nothing happens after an error. `clock` is what the
/// clock showed at each item.
pub open spec fn progress(
    start: IteratorView,
    schema: SchemaView,
    items: Seq<Option<InputView>>,
    clock: Seq<Timestamp>,
    n: int,
) -> Progress
    decreases n,
{
    if n <= 0 {
        Progress { iter: start, events: Seq::empty(), error: None }
    } else {
        stepped(
            progress(start, schema, items, clock, n - 1),
            schema,
            items[n - 1],
            clock[n - 1],
        )
    }
}

/// The progress once the end of the items was found too. That there was no event is an error.
pub open spec fn whole(
    start: IteratorView,
    schema: SchemaView,
    items: Seq<Option<InputView>>,
    clock: Seq<Timestamp>,
) -> Progress {
    let end = progress(start, schema, items, clock, items.len() as int);
    if !end.iter.done && end.iter.events == 0 {
        Progress { iter: finished(end.iter), error: Some(ApiError::NoData), ..end }
    } else {
        end
    }
}

/// What comes of the items of a request: the events up to the first error, and that error. That
/// there was no event is an error too.
pub open spec fn outcome(
    start: IteratorView,
    schema: SchemaView,
    items: Seq<Option<InputView>>,
    clock: Seq<Timestamp>,
) -> (Seq<LogView>, Option<ApiError>) {
    let end = whole(start, schema, items, clock);
    (end.events, end.error)
}

/// Whether nothing is wrong with the first `n` items.
pub open spec fn all_fine(items: Seq<Option<InputView>>, n: int) -> bool {
    forall|i: int| 0 <= i < n ==> item_error(#[trigger] items[i], 0) is None
}

/// Whether the calendar has every time that is needed. None is needed after the first error.
pub open spec fn in_calendar(items: Seq<Option<InputView>>) -> bool {
    forall|n: int|
        0 <= n < items.len() && all_fine(items, n) ==> !needs_missing_time(#[trigger] items[n])
}

/// The logs as views.
pub open spec fn logs_view(logs: Seq<LogEvent>) -> Seq<LogView> {
    logs.map_values(|log: LogEvent| log@)
}

proof fn lemma_progress_prefix(
    start: IteratorView,
    schema: SchemaView,
    items: Seq<Option<InputView>>,
    clock: Seq<Timestamp>,
    longer: Seq<Timestamp>,
    n: int,
)
    requires
        n <= clock.len() <= longer.len(),
        longer.take(clock.len() as int) == clock,
    ensures
        progress(start, schema, items, clock, n) == progress(start, schema, items, longer, n),
    decreases n,
{
    if n > 0 {
        lemma_progress_prefix(start, schema, items, clock, longer, n - 1);
        assert(longer.take(clock.len() as int)[n - 1] == longer[n - 1]);
    }
}

/// Once an iterator is done, nothing changes any more.
pub proof fn lemma_progress_ends(
    start: IteratorView,
    schema: SchemaView,
    items: Seq<Option<InputView>>,
    clock: Seq<Timestamp>,
    n: int,
    m: int,
)
    requires
        0 <= n <= m,
        progress(start, schema, items, clock, n).iter.done,
    ensures
        progress(start, schema, items, clock, m) == progress(start, schema, items, clock, n),
    decreases m - n,
{
    if n < m {
        lemma_progress_ends(start, schema, items, clock, n, m - 1);
    }
}

/// Whether nothing is wrong with an item.
fn is_fine(item: &Option<Input>) -> (b: bool)
    ensures
        b == (item_error(item_view(*item), 0) is None),
{
    match item {
        Some(input) => {
            let usable = match input.time {
                EventTime::Unreadable => false,
                EventTime::Stamp(n) => n <= i64::MAX as u64,
                _ => true,
            };
            match input.json.get("event") {
                Some(event) => usable && !blank(event),
                None => false,
            }
        },
        None => false,
    }
}

/// Whether an item would need a time that the calendar does not have.
fn lacks_time(item: &Option<Input>) -> (b: bool)
    ensures
        b == needs_missing_time(item_view(*item)),
{
    match item {
        Some(input) => match input.time {
            EventTime::Instant { secs, nanos } => match input.json.get("event") {
                Some(event) => !blank(event) && timestamp_opt(secs, nanos).is_none(),
                None => false,
            },
            _ => false,
        },
        None => false,
    }
}

/// Whether the calendar has every time that the items need.
pub fn times_in_calendar(items: &Vec<Option<Input>>) -> (b: bool)
    ensures
        b == in_calendar(items_view(items@)),
{
    let ghost views = items_view(items@);
    for i in 0..items.len()
        invariant
            views == items_view(items@),
            all_fine(views, i as int),
            forall|n: int| 0 <= n < i ==> !needs_missing_time(#[trigger] views[n]),
    {
        assert(views[i as int] == item_view(items@[i as int]));
        if lacks_time(&items[i]) {
            assert(needs_missing_time(views[i as int]));
            return false;
        }
        if !is_fine(&items[i]) {
            assert forall|n: int| 0 <= n < views.len() && all_fine(
                views,
                n,
            ) implies !needs_missing_time(#[trigger] views[n]) by {
                if n > i {
                    assert(item_error(views[i as int], 0) is None);
                }
            }
            return true;
        }
    }
    true
}

proof fn lemma_progress_step(
    start: IteratorView,
    schema: SchemaView,
    items: Seq<Option<InputView>>,
    clock: Seq<Timestamp>,
    now: Timestamp,
)
    requires
        clock.len() < items.len(),
    ensures
        ({
            let n = clock.len() as int;
            let before = progress(start, schema, items, clock, n);
            progress(start, schema, items, clock.push(now), n + 1) == stepped(
                before,
                schema,
                items[n],
                now,
            )
        }),
{
    let n = clock.len() as int;
    let longer = clock.push(now);
    assert(longer.take(n) =~= clock);
    lemma_progress_prefix(start, schema, items, clock, longer, n);
}

impl EventIterator {
    /// The events for the items of a request, up to the first error, and that error. The clock is
    /// read at each item.
    #[verifier::rlimit(50)]
    pub fn collect(&mut self, schema: &LogSchema, items: &Vec<Option<Input>>) -> (collected: (
        Vec<LogEvent>,
        Option<ApiError>,
    ))
        requires
            old(self).events + items.len() <= usize::MAX,
            in_calendar(items_view(items@)),
        ensures
            exists|clock: Seq<Timestamp>|
                #[trigger] whole(old(self)@, schema@, items_view(items@), clock) == (Progress {
                    iter: final(self)@,
                    events: logs_view(collected.0@),
                    error: collected.1,
                }) && clock.len() == items.len() && timestamp::are_readings(clock),
    {
        let ghost start = self@;
        let ghost views = items_view(items@);
        let ghost mut clock: Seq<Timestamp> = Seq::empty();
        let mut events: Vec<LogEvent> = Vec::new();
        assert(logs_view(events@) =~= Seq::empty());
        for i in 0..items.len()
            invariant
                views == items_view(items@),
                start == old(self)@,
                start.events + items.len() <= usize::MAX,
                in_calendar(views),
                clock.len() == i,
                timestamp::are_readings(clock),
                self@.done == start.done,
                !start.done ==> self@.events == start.events + i,
                !start.done ==> all_fine(views, i as int),
                progress(start, schema@, views, clock, i as int) == (Progress {
                    iter: self@,
                    events: logs_view(events@),
                    error: None,
                }),
        {
            assert(views[i as int] == item_view(items@[i as int]));
            let now = utc_now();
            proof {
                lemma_progress_step(start, schema@, views, clock, now);
                clock = clock.push(now);
            }
            match self.next(schema, Some(&items[i]), now) {
                Some(Ok(log)) => {
                    let ghost before = events@;
                    events.push(log);
                    assert(logs_view(events@) =~= logs_view(before).push(log@));
                },
                Some(Err(e)) => {
                    proof {
                        let all = clock + Seq::new(
                            (views.len() - clock.len()) as nat,
                            |j: int| now,
                        );
                        assert(all.take(clock.len() as int) =~= clock);
                        lemma_progress_prefix(start, schema@, views, clock, all, i + 1);
                        lemma_progress_ends(
                            start,
                            schema@,
                            views,
                            all,
                            i + 1,
                            views.len() as int,
                        );
                        assert(whole(start, schema@, views, all) == (Progress {
                            iter: self@,
                            events: logs_view(events@),
                            error: Some(e),
                        }));
                    }
                    return (events, Some(e));
                },
                None => {},
            }
        }
        let error = match self.next(schema, None, utc_now()) {
            Some(Err(e)) => Some(e),
            _ => None,
        };
        assert(whole(start, schema@, views, clock) == (Progress {
            iter: self@,
            events: logs_view(events@),
            error,
        }));
        (events, error)
    }
}

} // verus!
