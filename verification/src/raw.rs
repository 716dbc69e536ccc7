//! How the body of a request to the raw endpoint becomes log events.
use vstd::prelude::*;
use vstd::slice::slice_to_vec;
use vstd::utf8::*;

use crate::encoding;
use crate::encoding::{from_utf8_lossy, raw_bytes};
use crate::events;
use crate::events::{insert_time, CHANNEL, INDEX, SOURCE, SOURCETYPE};
use crate::log_event;
use crate::log_event::{
    path_of, LegacyKey, LegacyKeyView, LogEvent, LogNamespace, LogSchema, LogView, SchemaView,
};
use crate::raw_laws;
use crate::response::ApiError;
use crate::text;
use crate::timestamp;
use crate::timestamp::{parse_timestamp, timestamp_opt, utc_now, Timestamp};
use crate::value;
use crate::value::{EventValue, ValueView};

verus! {

/// What the events of a raw request have in common.
#[derive(Debug)]
pub struct RawContext {
    pub channel: String,
    /// The address of the peer
    pub remote: Option<String>,
    /// The address that the request says it was forwarded for
    pub xff: Option<String>,
    /// Whether the delivery of the events is to be reported
    pub batch: bool,
    pub log_namespace: LogNamespace,
    pub fix_bare_string_events: bool,
}

/// What the events of a raw request have in common, with texts as sequences.
pub struct RawContextView {
    pub channel: Seq<char>,
    pub host: Option<Seq<char>>,
    pub batch: bool,
    pub log_namespace: LogNamespace,
    pub fix_bare_string_events: bool,
}

impl View for RawContext {
    type V = RawContextView;

    /// The host is who the request was forwarded for, else the peer.
    open spec fn view(&self) -> RawContextView {
        RawContextView {
            channel: self.channel@,
            host: events::first_of(text::text_of(self.xff), text::text_of(self.remote)),
            batch: self.batch,
            log_namespace: self.log_namespace,
            fix_bare_string_events: self.fix_bare_string_events,
        }
    }
}

/// The log with these bytes as its message. In the Vector namespace they are the whole event,
/// unless that is to be avoided.
pub open spec fn message_log(
    context: RawContextView,
    schema: SchemaView,
    message: Seq<u8>,
) -> LogView {
    match context.log_namespace {
        LogNamespace::Vector => if context.fix_bare_string_events {
            log_event::inserted(
                log_event::empty_log(),
                seq!["message"@],
                ValueView::Bytes(message),
            )
        } else {
            log_event::log_of(ValueView::Bytes(message))
        },
        LogNamespace::Legacy => log_event::maybe_inserted(
            log_event::empty_log(),
            schema.message_key,
            ValueView::Bytes(message),
        ),
    }
}

/// The legacy key that fills a path only where nothing stands there, if there is such a path.
pub open spec fn if_empty(key: Option<Seq<Seq<char>>>) -> Option<LegacyKeyView> {
    match key {
        Some(key) => Some(LegacyKeyView::InsertIfEmpty(key)),
        None => None,
    }
}

/// The log with its host, where that is known and none was set.
pub open spec fn with_host(
    namespace: LogNamespace,
    schema: SchemaView,
    log: LogView,
    host: Option<Seq<char>>,
) -> LogView {
    match host {
        Some(host) => log_event::source_noted(
            namespace,
            log,
            if_empty(schema.host_key),
            seq!["host"@],
            value::text_value(host),
        ),
        None => log,
    }
}

/// The log for a message of a raw request.
pub open spec fn raw_log(
    context: RawContextView,
    schema: SchemaView,
    message: Seq<u8>,
    now: Timestamp,
) -> LogView {
    let namespace = context.log_namespace;
    let log = log_event::source_noted(
        namespace,
        message_log(context, schema, message),
        Some(LegacyKeyView::Overwrite(seq![CHANNEL@])),
        seq![CHANNEL@],
        value::text_value(context.channel),
    );
    let log = with_host(namespace, schema, log, context.host);
    let log = log_event::standard_noted(namespace, schema, log, now);
    if context.batch {
        LogView { notify: true, ..log }
    } else {
        log
    }
}

/// Adds its host to a log, where none was set.
fn insert_host(namespace: LogNamespace, schema: &LogSchema, log: &mut LogEvent, host: &str)
    ensures
        final(log)@ == with_host(namespace, schema@, old(log)@, Some(host@)),
{
    let legacy_key = match &schema.host_key {
        Some(key) => Some(LegacyKey::InsertIfEmpty(key)),
        None => None,
    };
    namespace.insert_source_metadata(log, legacy_key, &path_of("host"), EventValue::text(host));
}

/// The log for a message of a raw request.
pub fn message_event(
    context: &RawContext,
    schema: &LogSchema,
    message: Vec<u8>,
    now: Timestamp,
) -> (event: LogEvent)
    ensures
        event@ == raw_log(context@, schema@, message@, now),
{
    let namespace = context.log_namespace;
    let v = EventValue::Bytes(message);
    let mut log = match namespace {
        LogNamespace::Vector => {
            if context.fix_bare_string_events {
                let mut wrapped = LogEvent::default();
                wrapped.insert_field("message", v);
                wrapped
            } else {
                LogEvent::from_value(v)
            }
        },
        LogNamespace::Legacy => {
            let mut log = LogEvent::default();
            log.maybe_insert(&schema.message_key, v);
            log
        },
    };
    let channel_path = path_of(CHANNEL);
    namespace.insert_source_metadata(
        &mut log,
        Some(LegacyKey::Overwrite(&channel_path)),
        &channel_path,
        EventValue::text(context.channel.as_str()),
    );
    match &context.xff {
        Some(host) => insert_host(namespace, schema, &mut log, host.as_str()),
        None => match &context.remote {
            Some(host) => insert_host(namespace, schema, &mut log, host.as_str()),
            None => {},
        },
    }
    namespace.insert_standard_vector_source_metadata(&mut log, schema, now);
    if context.batch {
        log.notify = true;
    }
    log
}

/// Creates event from raw request
pub fn raw_event(body: Vec<u8>, gzip: bool, context: &RawContext, schema: &LogSchema) -> (event:
    Result<LogEvent, ApiError>)
    ensures
        match event {
            Ok(log) => {
                &&& encoding::raw_error(encoding::unpacked(body@, gzip)) is None
                &&& exists|now: Timestamp|
                    log@ == #[trigger] raw_log(
                        context@,
                        schema@,
                        encoding::unpacked(body@, gzip)->0,
                        now,
                    ) && timestamp::is_instant(now.secs, now.nanos)
            },
            Err(e) => encoding::raw_error(encoding::unpacked(body@, gzip)) == Some(e),
        },
{
    match raw_bytes(body, gzip) {
        Ok(message) => Ok(message_event(context, schema, message, utc_now())),
        Err(e) => Err(e),
    }
}

/// Whether a line holds more than white space.
pub open spec fn says_something(line: Seq<char>) -> bool {
    text::trimmed(line).len() > 0
}

/// The lines of a text that hold more than white space.
pub open spec fn full_lines(s: Seq<char>) -> Seq<Seq<char>> {
    text::split_on(s, '\n').filter(|line: Seq<char>| says_something(line))
}

/// The byte that ends a line.
pub const LINE_FEED: u8 = 10;

/// The place of the first line that holds more than white space, or of the last line where none
/// before it does.
pub open spec fn first_full(lines: Seq<Seq<u8>>) -> int
    decreases lines.len(),
{
    if lines.len() <= 1 || says_something(encoding::utf8_lossy(lines[0])) {
        0
    } else {
        1 + first_full(lines.skip(1))
    }
}

/// The bytes of the line of a body that comes after its blank lines.
pub open spec fn own_line(data: Seq<u8>) -> Seq<u8> {
    text::split_on(data, LINE_FEED)[first_full(text::split_on(data, LINE_FEED))]
}

/// What the messages of a body are that is split by lines: the lines of its text that hold more
/// than white space. Where there is only one, it is kept byte for byte.
pub open spec fn messages(data: Seq<u8>) -> Seq<Seq<u8>> {
    let lines = full_lines(encoding::utf8_lossy(data));
    if lines.len() == 1 {
        seq![own_line(data)]
    } else {
        lines.map_values(|line: Seq<char>| encode_utf8(line))
    }
}

/// Whether a body, where it is UTF-8, is split into the lines of the text that it holds.
pub open spec fn splits_as_utf8(data: Seq<u8>) -> bool {
    valid_utf8(data) ==> {
        &&& encoding::utf8_lossy(data) == decode_utf8(data)
        &&& messages(data) == full_lines(decode_utf8(data)).map_values(
            |line: Seq<char>| encode_utf8(line),
        )
    }
}

/// The logs for the messages of a raw request. `clock` is what the clock showed at each of them.
pub open spec fn raw_logs(
    context: RawContextView,
    schema: SchemaView,
    messages: Seq<Seq<u8>>,
    clock: Seq<Timestamp>,
) -> Seq<LogView> {
    Seq::new(messages.len(), |i: int| raw_log(context, schema, messages[i], clock[i]))
}

/// The lines of a text that hold more than white space.
fn lines_of(s: &str) -> (lines: Vec<String>)
    ensures
        lines@.map_values(|line: String| line@) == full_lines(s@),
{
    let pieces = text::split(text::chars_of(s).as_slice(), '\n');
    let ghost all = text::split_on(s@, '\n');
    let ghost keep = |line: Seq<char>| says_something(line);
    let mut lines: Vec<String> = Vec::new();
    proof {
        reveal(Seq::filter);
        assert(all.take(0) =~= Seq::empty());
        assert(lines@.map_values(|line: String| line@) =~= Seq::empty());
    }
    for i in 0..pieces.len()
        invariant
            pieces.len() == all.len(),
            forall|j: int| 0 <= j < pieces.len() ==> (#[trigger] pieces[j])@ == all[j],
            keep == (|line: Seq<char>| says_something(line)),
            lines@.map_values(|line: String| line@) == all.take(i as int).filter(keep),
    {
        let ghost before = lines@;
        proof {
            reveal(Seq::filter);
            assert(all.take(i + 1).drop_last() =~= all.take(i as int));
            assert(all.take(i + 1).last() == all[i as int]);
        }
        if text::trim(pieces[i].as_slice()).len() > 0 {
            let line = text::string_of(pieces[i].as_slice());
            lines.push(line);
            assert(lines@.map_values(|line: String| line@) =~= before.map_values(
                |line: String| line@,
            ).push(line@));
        }
    }
    assert(all.take(all.len() as int) =~= all);
    lines
}

/// Whether a line of bytes, read as the text that it holds where it is UTF-8, is blank.
pub open spec fn is_read_blank(line: Seq<u8>) -> bool {
    encoding::reads_as_utf8(line) && !says_something(encoding::utf8_lossy(line))
}

/// The bytes of the line of a body that comes after its blank lines.
fn take_own_line(data: &[u8]) -> (line: Vec<u8>)
    ensures
        line@ == own_line(data@),
        valid_utf8(data@) && full_lines(decode_utf8(data@)).len() == 1 ==> seq![line@]
            == full_lines(decode_utf8(data@)).map_values(|line: Seq<char>| encode_utf8(line)),
{
    let mut lines = text::split_bytes(data, LINE_FEED);
    let ghost all = text::split_on(data@, LINE_FEED);
    let mut i: usize = 0;
    proof {
        raw_laws::law_lines_join_to_the_whole(data@, LINE_FEED);
        assert(all.skip(0) =~= all);
    }
    while i + 1 < lines.len()
        invariant_except_break
            first_full(all) == i + first_full(all.skip(i as int)),
        invariant
            i < lines.len(),
            lines.len() == all.len(),
            forall|j: int| 0 <= j < lines.len() ==> (#[trigger] lines[j])@ == all[j],
            forall|j: int| 0 <= j < i ==> is_read_blank(#[trigger] all[j]),
        ensures
            first_full(all) == i,
            i + 1 < lines.len() ==> encoding::reads_as_utf8(all[i as int]) && says_something(
                encoding::utf8_lossy(all[i as int]),
            ),
        decreases lines.len() - i,
    {
        assert(all.skip(i as int)[0] == all[i as int]);
        let line = text::chars_of(from_utf8_lossy(lines[i].as_slice()).as_str());
        if text::trim(line.as_slice()).len() > 0 {
            break;
        }
        assert(all.skip(i as int).skip(1) =~= all.skip(i + 1));
        i = i + 1;
    }
    proof {
        if valid_utf8(data@) {
            raw_laws::lemma_one_full_line(data@, i as int);
        }
    }
    lines.swap_remove(i)
}

/// What is wrong with what the body of a request holds that is split by lines, if anything is.
pub open spec fn split_error(data: Option<Seq<u8>>) -> Option<ApiError> {
    match encoding::raw_error(data) {
        Some(e) => Some(e),
        None => if full_lines(encoding::utf8_lossy(data->0)).len() == 0 {
            Some(ApiError::NoData)
        } else {
            None
        },
    }
}

/// Whether these are the logs for the messages of a raw request, with the clock read at each.
pub open spec fn are_raw_logs(
    logs: Seq<LogView>,
    context: RawContextView,
    schema: SchemaView,
    messages: Seq<Seq<u8>>,
) -> bool {
    exists|clock: Seq<Timestamp>|
        logs == #[trigger] raw_logs(context, schema, messages, clock) && clock.len()
            == messages.len() && timestamp::are_readings(clock)
}

/// Creates multiple events from raw request by splitting on newlines.
/// Each non-empty line becomes a separate event, matching Splunk's LINE_BREAKER behavior.
pub fn raw_events_split(
    body: Vec<u8>,
    gzip: bool,
    context: &RawContext,
    schema: &LogSchema,
) -> (events: Result<Vec<LogEvent>, ApiError>)
    ensures
        match events {
            Ok(logs) => {
                &&& split_error(encoding::unpacked(body@, gzip)) is None
                &&& are_raw_logs(
                    events::logs_view(logs@),
                    context@,
                    schema@,
                    messages(encoding::unpacked(body@, gzip)->0),
                )
            },
            Err(e) => split_error(encoding::unpacked(body@, gzip)) == Some(e),
        },
        encoding::raw_error(encoding::unpacked(body@, gzip)) is None ==> splits_as_utf8(
            encoding::unpacked(body@, gzip)->0,
        ),
{
    let data = match raw_bytes(body, gzip) {
        Ok(data) => data,
        Err(e) => return Err(e),
    };
    let lines = lines_of(from_utf8_lossy(data.as_slice()).as_str());
    if lines.len() == 0 {
        return Err(ApiError::NoData);
    }
    let ghost parts = messages(data@);
    let mut events: Vec<LogEvent> = Vec::new();
    let ghost mut clock: Seq<Timestamp> = Seq::empty();
    if lines.len() == 1 {
        let line = take_own_line(data.as_slice());
        let now = utc_now();
        proof {
            clock = seq![now];
        }
        events.push(message_event(context, schema, line, now));
        assert(timestamp::are_readings(clock));
        assert(events::logs_view(events@) =~= raw_logs(context@, schema@, parts, clock));
        return Ok(events);
    }
    assert(parts =~= lines@.map_values(|line: String| encode_utf8(line@)));
    for i in 0..lines.len()
        invariant
            parts == lines@.map_values(|line: String| encode_utf8(line@)),
            clock.len() == i,
            timestamp::are_readings(clock),
            events.len() == i,
            forall|j: int|
                0 <= j < i ==> (#[trigger] events@[j])@ == raw_log(
                    context@,
                    schema@,
                    parts[j],
                    clock[j],
                ),
    {
        let now = utc_now();
        proof {
            clock = clock.push(now);
        }
        let message = slice_to_vec(lines[i].as_str().as_bytes());
        events.push(message_event(context, schema, message, now));
    }
    assert(events::logs_view(events@) =~= raw_logs(context@, schema@, parts, clock));
    Ok(events)
}

/// Query parameters for the raw endpoint.
#[derive(Debug)]
pub struct RawQueryParams {
    pub channel: Option<String>,
    pub index: Option<String>,
    pub sourcetype: Option<String>,
    pub source: Option<String>,
    pub host: Option<String>,
    pub time: Option<String>,
    pub token: Option<String>,
}

/// The time that a text of the raw endpoint's query names. `split` is what the text is in seconds
/// and nanoseconds, where it spells a floating-point number; else it may spell a whole one.
pub open spec fn query_time(time: Option<Seq<char>>, split: Option<(i64, u32)>) -> Option<
    Timestamp,
> {
    match (time, split) {
        (None, _) => None,
        (Some(_), Some((secs, nanos))) => if timestamp::is_instant(secs, nanos) {
            Some(Timestamp { secs, nanos })
        } else {
            None
        },
        (Some(s), None) => match text::integer_in(s) {
            Some(n) => if n <= i64::MAX {
                timestamp::timestamp_of(n)
            } else {
                None
            },
            None => None,
        },
    }
}

/// The time that a text of the raw endpoint's query names.
pub fn time_of_query(time: &Option<String>, split: Option<(i64, u32)>) -> (t: Option<Timestamp>)
    ensures
        t == query_time(text::text_of(*time), split),
{
    match (time, split) {
        (None, _) => None,
        (Some(_), Some((secs, nanos))) => timestamp_opt(secs, nanos),
        (Some(s), None) => match text::parse_i64(s.as_str()) {
            Some(n) => parse_timestamp(n),
            None => None,
        },
    }
}

/// What the query and the credentials of a raw request add to its events.
#[derive(Debug)]
pub struct UrlMetadata {
    pub host: Option<String>,
    pub index: Option<String>,
    pub sourcetype: Option<String>,
    pub source: Option<String>,
    /// The token, where it is to be kept
    pub token: Option<String>,
    pub time: Option<Timestamp>,
    /// Whether to add metadata as event-level fields too
    pub auto_forward_metadata: bool,
}

/// What is added to the events of a raw request, with texts as sequences.
pub struct UrlMetadataView {
    pub host: Option<Seq<char>>,
    pub index: Option<Seq<char>>,
    pub sourcetype: Option<Seq<char>>,
    pub source: Option<Seq<char>>,
    pub token: Option<Seq<char>>,
    pub time: Option<Timestamp>,
    pub auto_forward_metadata: bool,
}

impl View for UrlMetadata {
    type V = UrlMetadataView;

    open spec fn view(&self) -> UrlMetadataView {
        UrlMetadataView {
            host: text::text_of(self.host),
            index: text::text_of(self.index),
            sourcetype: text::text_of(self.sourcetype),
            source: text::text_of(self.source),
            token: text::text_of(self.token),
            time: self.time,
            auto_forward_metadata: self.auto_forward_metadata,
        }
    }
}

/// The log with a piece of URL metadata, where there is one: by a legacy key or in the metadata,
/// and under its name at the root of the event where it is forwarded.
pub open spec fn url_noted(
    namespace: LogNamespace,
    log: LogView,
    legacy_key: Option<LegacyKeyView>,
    name: Seq<char>,
    v: Option<Seq<char>>,
    forward: bool,
) -> LogView {
    match v {
        Some(s) => {
            let noted = log_event::source_noted(
                namespace,
                log,
                legacy_key,
                seq![name],
                value::text_value(s),
            );
            if forward {
                log_event::inserted(noted, seq![name], value::text_value(s))
            } else {
                noted
            }
        },
        None => log,
    }
}

/// The log with what the query and the credentials of its request add.
pub open spec fn with_url_metadata(
    namespace: LogNamespace,
    schema: SchemaView,
    log: LogView,
    meta: UrlMetadataView,
) -> LogView {
    let forward = meta.auto_forward_metadata;
    let log = url_noted(
        namespace,
        log,
        if_empty(schema.host_key),
        "host"@,
        meta.host,
        forward,
    );
    let log = url_noted(
        namespace,
        log,
        Some(LegacyKeyView::Overwrite(seq![INDEX@])),
        "index"@,
        meta.index,
        forward,
    );
    let log = url_noted(
        namespace,
        log,
        Some(LegacyKeyView::Overwrite(seq![SOURCETYPE@])),
        "sourcetype"@,
        meta.sourcetype,
        forward,
    );
    let log = url_noted(
        namespace,
        log,
        Some(LegacyKeyView::Overwrite(seq![SOURCE@])),
        "source"@,
        meta.source,
        forward,
    );
    let log = match meta.token {
        Some(token) => LogView { hec_token: Some(token), ..log },
        None => log,
    };
    match meta.time {
        Some(t) => events::with_time(namespace, schema, log, t),
        None => log,
    }
}

/// Adds a piece of URL metadata to a log, where there is one.
fn add_url_field(
    namespace: LogNamespace,
    log: &mut LogEvent,
    legacy_key: Option<LegacyKey>,
    name: &str,
    v: &Option<String>,
    forward: bool,
)
    ensures
        final(log)@ == url_noted(
            namespace,
            old(log)@,
            log_event::legacy_view(legacy_key),
            name@,
            text::text_of(*v),
            forward,
        ),
{
    match v {
        Some(s) => {
            namespace.insert_source_metadata(
                log,
                legacy_key,
                &path_of(name),
                EventValue::text(s.as_str()),
            );
            if forward {
                log.insert_field(name, EventValue::text(s.as_str()));
            }
        },
        None => {},
    }
}

/// Adds what the query and the credentials of its request add to a log.
pub fn add_url_metadata(
    namespace: LogNamespace,
    schema: &LogSchema,
    log: &mut LogEvent,
    meta: &UrlMetadata,
)
    ensures
        final(log)@ == with_url_metadata(namespace, schema@, old(log)@, meta@),
{
    let forward = meta.auto_forward_metadata;
    let host_key = match &schema.host_key {
        Some(key) => Some(LegacyKey::InsertIfEmpty(key)),
        None => None,
    };
    add_url_field(namespace, log, host_key, "host", &meta.host, forward);
    let key = path_of(INDEX);
    add_url_field(
        namespace,
        log,
        Some(LegacyKey::Overwrite(&key)),
        "index",
        &meta.index,
        forward,
    );
    let key = path_of(SOURCETYPE);
    add_url_field(
        namespace,
        log,
        Some(LegacyKey::Overwrite(&key)),
        "sourcetype",
        &meta.sourcetype,
        forward,
    );
    let key = path_of(SOURCE);
    add_url_field(
        namespace,
        log,
        Some(LegacyKey::Overwrite(&key)),
        "source",
        &meta.source,
        forward,
    );
    match &meta.token {
        Some(token) => {
            log.hec_token = Some(token.clone());
        },
        None => {},
    }
    match meta.time {
        Some(t) => insert_time(namespace, schema, log, t),
        None => {},
    }
}

} // verus!
