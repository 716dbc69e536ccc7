//! The course of a request to the event endpoint and to the raw endpoint: what to do next, from
//! what came of the last thing done.
use vstd::prelude::*;

use crate::auth;
use crate::encoding;
use crate::encoding::{event_text, new_channel_id};
use crate::event_time;
use crate::event_time::{event_time, read_time, TimeReading};
use crate::events;
use crate::events::{
    times_in_calendar, EventIterator, EventIteratorGenerator, GeneratorView, Input, InputView,
};
use crate::json;
use crate::json::{parse_values, JsonValue, JsonView, Number};
use crate::log_event::{LogEvent, LogSchema, LogView, SchemaView};
use crate::raw;
use crate::raw::{
    add_url_metadata, raw_event, raw_events_split, time_of_query, RawContext, RawContextView,
    RawQueryParams, UrlMetadata, UrlMetadataView,
};
use crate::response;
use crate::response::{finish_err, finish_ok, ApiError, Reply, ReplyView};
use crate::source;
use crate::source::{gzip, EventQueryParams, SplunkSource};
use crate::text;
use crate::timestamp;
use crate::timestamp::{utc_now, Timestamp};

verus! {

/// What came of sending events on.
#[derive(Clone, Copy, Debug, PartialEq, Eq, Structural)]
pub enum Delivery {
    Accepted,
    /// Nobody receives any more
    Closed,
}

/// A request to the event endpoint.
#[derive(Debug)]
pub struct EventRequest {
    pub authorization: Option<String>,
    /// The token of the URL
    pub url_token: Option<String>,
    pub channel_header: Option<String>,
    pub params: EventQueryParams,
    /// The address of the peer
    pub remote: Option<String>,
    /// The address that the request says it was forwarded for
    pub forwarded_for: Option<String>,
    pub encoding: Option<String>,
    pub body: Vec<u8>,
}

/// A request to the event endpoint that has been read, and whose events are yet to be built.
#[derive(Debug)]
pub struct PendingEvents {
    pub generator: EventIteratorGenerator,
    /// Size of the unpacked body
    pub byte_size: usize,
    pub items: Vec<Option<JsonValue>>,
}

/// What to do next about a request to the event endpoint.
#[derive(Debug)]
pub enum EventStep {
    /// Get an id in a channel, and go on with `event_acknowledged`
    AckId { channel: String, pending: PendingEvents },
    /// Split the doubles into seconds and nanoseconds, and go on with `event_split`
    Split { doubles: Vec<Option<u64>>, pending: PendingEvents, ack_id: Option<u64> },
    /// Send the events on, and go on with `event_delivered`
    Send { events: Vec<LogEvent>, error: Option<ApiError>, ack_id: Option<u64> },
    /// Answer, and be done
    Respond(Reply),
    /// Give up: an event is to have a time that the calendar does not have
    OutOfCalendar,
}

/// The channel of a request: of its header, else of its query.
pub open spec fn event_channel(request: EventRequest) -> Option<Seq<char>> {
    events::first_of(text::text_of(request.channel_header), text::text_of(request.params.channel))
}

/// Whether the credentials of a request to the event endpoint pass, and its token.
pub open spec fn event_verdict(source: SplunkSource, request: EventRequest) -> Result<
    Option<Seq<char>>,
    ApiError,
> {
    auth::authorized(
        auth::texts(source.valid_credentials@),
        source.allow_query_string_auth,
        text::text_of(request.authorization),
        text::text_of(request.url_token),
    )
}

/// What the body of a request to the event endpoint holds, where it can be unpacked.
pub open spec fn event_data(request: EventRequest) -> Option<Seq<u8>> {
    encoding::unpacked(
        request.body@,
        source::gzip_asked(text::text_of(request.encoding)) == Ok::<bool, ApiError>(true),
    )
}

/// Why a request to the event endpoint is refused before its events are looked at, if it is: its
/// credentials, its encoding, a channel that is missing where ids are given, and a body that
/// cannot be unpacked, in this order.
pub open spec fn event_refusal(source: SplunkSource, request: EventRequest) -> Option<ApiError> {
    match event_verdict(source, request) {
        Err(e) => Some(e),
        Ok(_) => match source::gzip_asked(text::text_of(request.encoding)) {
            Err(e) => Some(e),
            Ok(_) => if source.acknowledgements && event_channel(request) is None {
                Some(ApiError::MissingChannel)
            } else if event_data(request) is None {
                Some(ApiError::BadRequest)
            } else {
                None
            },
        },
    }
}

/// The token that events keep, where they do.
pub open spec fn kept_token(source: SplunkSource, token: Option<Seq<char>>) -> Option<Seq<char>> {
    if source.store_hec_token {
        token
    } else {
        None
    }
}

/// What the events of a request start from.
pub open spec fn event_generator(source: SplunkSource, request: EventRequest) -> GeneratorView {
    GeneratorView {
        channel: event_channel(request),
        batch: source.acknowledgements,
        token: kept_token(source, event_verdict(source, request)->Ok_0),
        log_namespace: source.log_namespace,
        remote: text::text_of(request.remote),
        remote_addr: text::text_of(request.forwarded_for),
        auto_forward_metadata: source.auto_forward_metadata,
        fix_bare_string_events: source.fix_bare_string_events,
        auto_extract_timestamp: source::asks(text::text_of(request.params.auto_extract_timestamp)),
    }
}

/// Whether this is what a request to the event endpoint was read as.
pub open spec fn is_pending(
    pending: PendingEvents,
    source: SplunkSource,
    request: EventRequest,
) -> bool {
    &&& pending.generator@ == event_generator(source, request)
    &&& pending.byte_size == event_data(request)->0.len()
    &&& json::stream_view(pending.items@) == json::values_in(
        encoding::utf8_lossy(event_data(request)->0),
    )
    &&& json::is_blank(encoding::utf8_lossy(event_data(request)->0)) ==> pending.items.len() == 0
    &&& encoding::reads_as_utf8(event_data(request)->0)
}

/// The double that an item gives as its time, if it gives one.
pub open spec fn time_double(item: Option<JsonView>) -> Option<u64> {
    match item {
        Some(json) => match event_time::time_reading(json) {
            TimeReading::Number(Number::Double(bits)) => Some(bits),
            _ => None,
        },
        None => None,
    }
}

/// The doubles that items give as their times.
pub open spec fn time_doubles(items: Seq<Option<JsonView>>) -> Seq<Option<u64>> {
    items.map_values(|item: Option<JsonView>| time_double(item))
}

/// Whether a step asks for the doubles of a request to be split.
pub open spec fn is_split_step(
    step: EventStep,
    pending: PendingEvents,
    ack_id: Option<u64>,
) -> bool {
    step matches EventStep::Split { doubles, pending: p, ack_id: id } && doubles@ == time_doubles(
        json::stream_view(pending.items@),
    ) && p == pending && id == ack_id
}

/// Asks for the doubles of a request to be split.
fn split_step(pending: PendingEvents, ack_id: Option<u64>) -> (step: EventStep)
    ensures
        is_split_step(step, pending, ack_id),
{
    let mut doubles: Vec<Option<u64>> = Vec::new();
    let ghost views = json::stream_view(pending.items@);
    for i in 0..pending.items.len()
        invariant
            views == json::stream_view(pending.items@),
            doubles@ == time_doubles(views).take(i as int),
    {
        let ghost before = doubles@;
        let double = match &pending.items[i] {
            Some(json) => match read_time(json) {
                TimeReading::Number(Number::Double(bits)) => Some(bits),
                _ => None,
            },
            None => None,
        };
        doubles.push(double);
        assert(time_doubles(views)[i as int] == double);
        assert(time_doubles(views).take(i + 1) =~= time_doubles(views).take(i as int).push(double));
    }
    assert(time_doubles(views).take(views.len() as int) =~= time_doubles(views));
    EventStep::Split { doubles, pending, ack_id }
}

impl SplunkSource {
    /// Reads a request to the event endpoint.
    pub fn event_service(&self, request: EventRequest) -> (step: EventStep)
        ensures
            match event_refusal(*self, request) {
                Some(e) => step matches EventStep::Respond(r) && r@ == response::error_reply(e),
                None => if self.acknowledgements {
                    &&& step matches EventStep::AckId { channel, pending }
                    &&& Some(channel@) == event_channel(request)
                    &&& is_pending(pending, *self, request)
                } else {
                    exists|pending: PendingEvents| #[trigger]
                        is_pending(pending, *self, request) && is_split_step(step, pending, None)
                },
            },
    {
        let token = match self.authorization(request.authorization, request.url_token) {
            Ok(token) => token,
            Err(e) => return EventStep::Respond(finish_err(e)),
        };
        let packed = match gzip(&request.encoding) {
            Ok(packed) => packed,
            Err(e) => return EventStep::Respond(finish_err(e)),
        };
        let auto_extract_timestamp = request.params.auto_extract_timestamp_enabled();
        let channel = match request.channel_header {
            Some(channel) => Some(channel),
            None => request.params.channel,
        };
        if self.acknowledgements && channel.is_none() {
            return EventStep::Respond(finish_err(ApiError::MissingChannel));
        }
        let (body, byte_size) = match event_text(request.body, packed) {
            Ok(read) => read,
            Err(e) => return EventStep::Respond(finish_err(e)),
        };
        let pending = PendingEvents {
            generator: EventIteratorGenerator {
                channel: channel.clone(),
                batch: self.acknowledgements,
                token: if self.store_hec_token {
                    token
                } else {
                    None
                },
                log_namespace: self.log_namespace,
                remote: request.remote,
                remote_addr: request.forwarded_for,
                auto_forward_metadata: self.auto_forward_metadata,
                fix_bare_string_events: self.fix_bare_string_events,
                auto_extract_timestamp,
            },
            byte_size,
            items: parse_values(body.as_str()),
        };
        assert(is_pending(pending, *self, request));
        if self.acknowledgements {
            match channel {
                Some(channel) => EventStep::AckId { channel, pending },
                None => EventStep::Respond(finish_err(ApiError::MissingChannel)),
            }
        } else {
            split_step(pending, None)
        }
    }
}

/// Goes on with a request to the event endpoint once an id was asked for.
pub fn event_acknowledged(pending: PendingEvents, ack_id: Result<u64, ApiError>) -> (step:
    EventStep)
    ensures
        match ack_id {
            Ok(id) => is_split_step(step, pending, Some(id)),
            Err(e) => step matches EventStep::Respond(r) && r@ == response::error_reply(e),
        },
{
    match ack_id {
        Ok(id) => split_step(pending, Some(id)),
        Err(e) => EventStep::Respond(finish_err(e)),
    }
}

/// The inputs of a request, where the doubles among its times split like this.
pub open spec fn inputs(items: Seq<Option<JsonView>>, splits: Seq<(i64, u32)>) -> Seq<
    Option<InputView>,
> {
    Seq::new(
        items.len(),
        |i: int|
            match items[i] {
                Some(json) => Some(
                    InputView {
                        json,
                        time: event_time::time_given(event_time::time_reading(json), splits[i]),
                    },
                ),
                None => None,
            },
    )
}

/// Whether these are the events of a request up to the first error, and that error, with the clock
/// read at the start and at each item.
pub open spec fn is_outcome(
    logs: Seq<LogView>,
    error: Option<ApiError>,
    generator: GeneratorView,
    schema: SchemaView,
    items: Seq<Option<InputView>>,
) -> bool {
    exists|now: Timestamp, clock: Seq<Timestamp>|
        #[trigger] events::outcome(
            events::iterator_start(generator, schema, now),
            schema,
            items,
            clock,
        ) == (logs, error) && timestamp::is_instant(now.secs, now.nanos) && clock.len()
            == items.len() && timestamp::are_readings(clock)
}

/// The answer to a request to the event endpoint, once its events were sent on.
pub open spec fn event_reply(
    error: Option<ApiError>,
    delivery: Delivery,
    ack_id: Option<u64>,
) -> ReplyView {
    match (delivery, error) {
        (Delivery::Closed, _) => response::error_reply(ApiError::ServerShutdown),
        (Delivery::Accepted, Some(e)) => response::error_reply(e),
        (Delivery::Accepted, None) => response::ok_reply(ack_id),
    }
}

/// Goes on with a request to the event endpoint once the doubles among its times were split, one
/// after the other. Without events there is nothing to send on. Where there are not as many splits
/// as items, they are asked for again.
pub fn event_split(
    pending: PendingEvents,
    schema: &LogSchema,
    splits: &Vec<(i64, u32)>,
    ack_id: Option<u64>,
) -> (step: EventStep)
    ensures
        ({
            let items = inputs(json::stream_view(pending.items@), splits@);
            if splits.len() != pending.items.len() {
                is_split_step(step, pending, ack_id)
            } else if !events::in_calendar(items) {
                step is OutOfCalendar
            } else {
                match step {
                    EventStep::Send { events, error, ack_id: id } => {
                        &&& events.len() > 0
                        &&& is_outcome(
                            events::logs_view(events@),
                            error,
                            pending.generator@,
                            schema@,
                            items,
                        )
                        &&& id == ack_id
                    },
                    EventStep::Respond(r) => exists|error: Option<ApiError>| #[trigger]
                        is_outcome(Seq::empty(), error, pending.generator@, schema@, items)
                            && r@ == event_reply(error, Delivery::Accepted, ack_id),
                    _ => false,
                }
            }
        }),
{
    let ghost views = json::stream_view(pending.items@);
    let ghost all = inputs(views, splits@);
    if splits.len() != pending.items.len() {
        return split_step(pending, ack_id);
    }
    let PendingEvents { generator, items, .. } = pending;
    let mut built: Vec<Option<Input>> = Vec::new();
    let mut i: usize = 0;
    for item in it: items
        invariant
            it.seq() == pending.items@,
            views == json::stream_view(pending.items@),
            splits.len() == pending.items.len(),
            all == inputs(views, splits@),
            i == it.index(),
            built.len() == i,
            events::items_view(built@) == all.take(i as int),
    {
        let ghost before = built@;
        assert(views[i as int] == match item {
            Some(json) => Some(json@),
            None => None,
        });
        let input = match item {
            Some(json) => {
                let time = event_time(read_time(&json), splits[i]);
                Some(Input { json, time })
            },
            None => None,
        };
        built.push(input);
        assert(all[i as int] == events::item_view(input));
        assert(events::items_view(built@) =~= events::items_view(before).push(all[i as int]));
        assert(all.take(i + 1) =~= all.take(i as int).push(all[i as int]));
        i = i + 1;
    }
    assert(all.take(all.len() as int) =~= all);
    if !times_in_calendar(&built) {
        return EventStep::OutOfCalendar;
    }
    let now = utc_now();
    let mut iter = EventIterator::from(generator, schema, now);
    let ghost start = iter@;
    let (events, error) = iter.collect(schema, &built);
    proof {
        let clock = choose|clock: Seq<Timestamp>|
            #[trigger] events::whole(start, schema@, all, clock) == (events::Progress {
                iter: iter@,
                events: events::logs_view(events@),
                error,
            }) && clock.len() == all.len() && timestamp::are_readings(clock);
        assert(events::outcome(
            events::iterator_start(pending.generator@, schema@, now),
            schema@,
            all,
            clock,
        ) == (events::logs_view(events@), error));
    }
    assert(is_outcome(events::logs_view(events@), error, pending.generator@, schema@, all));
    if events.len() > 0 {
        EventStep::Send { events, error, ack_id }
    } else {
        assert(events::logs_view(events@) =~= Seq::empty());
        EventStep::Respond(event_delivered(error, Delivery::Accepted, ack_id))
    }
}

/// Answers a request to the event endpoint once its events were sent on.
pub fn event_delivered(error: Option<ApiError>, delivery: Delivery, ack_id: Option<u64>) -> (r:
    Reply)
    ensures
        r@ == event_reply(error, delivery, ack_id),
{
    match (delivery, error) {
        (Delivery::Closed, _) => finish_err(ApiError::ServerShutdown),
        (Delivery::Accepted, Some(e)) => finish_err(e),
        (Delivery::Accepted, None) => finish_ok(ack_id),
    }
}

/// A request to the raw endpoint.
#[derive(Debug)]
pub struct RawRequest {
    pub authorization: Option<String>,
    /// The token of the URL
    pub url_token: Option<String>,
    pub channel_header: Option<String>,
    pub params: RawQueryParams,
    /// What the time of the query is in seconds and nanoseconds, where it spells a
    /// floating-point number
    pub time_split: Option<(i64, u32)>,
    /// The address of the peer
    pub remote: Option<String>,
    /// The address that the request says it was forwarded for
    pub forwarded_for: Option<String>,
    pub encoding: Option<String>,
    pub body: Vec<u8>,
}

/// A request to the raw endpoint that has been read, and whose events are yet to be built.
#[derive(Debug)]
pub struct PendingRaw {
    pub context: RawContext,
    pub metadata: UrlMetadata,
    pub gzip: bool,
    pub split_lines: bool,
    pub body: Vec<u8>,
}

/// A request to the raw endpoint that has been read, with texts as sequences.
pub struct PendingRawView {
    pub context: RawContextView,
    pub metadata: UrlMetadataView,
    pub gzip: bool,
    pub split_lines: bool,
    pub body: Seq<u8>,
}

impl View for PendingRaw {
    type V = PendingRawView;

    open spec fn view(&self) -> PendingRawView {
        PendingRawView {
            context: self.context@,
            metadata: self.metadata@,
            gzip: self.gzip,
            split_lines: self.split_lines,
            body: self.body@,
        }
    }
}

/// What to do next about a request to the raw endpoint.
#[derive(Debug)]
pub enum RawStep {
    /// Get an id in a channel, and go on with `raw_acknowledged`
    AckId { channel: String, pending: PendingRaw },
    /// Send the events on, and go on with `raw_delivered`
    Send { events: Vec<LogEvent>, ack_id: Option<u64> },
    /// Answer, and be done
    Respond(Reply),
}

/// The channel that a request to the raw endpoint names: of its header, else of its query.
pub open spec fn raw_channel(request: RawRequest) -> Option<Seq<char>> {
    events::first_of(text::text_of(request.channel_header), text::text_of(request.params.channel))
}

/// Whether the credentials of a request to the raw endpoint pass, and its token.
pub open spec fn raw_verdict(source: SplunkSource, request: RawRequest) -> Result<
    Option<Seq<char>>,
    ApiError,
> {
    auth::authorized(
        auth::texts(source.valid_credentials@),
        source.allow_query_string_auth,
        text::text_of(request.authorization),
        text::text_of(request.url_token),
    )
}

/// Why a request to the raw endpoint is refused before its body is looked at, if it is: its
/// credentials, its encoding, and a channel that is missing where one is required, in this order.
pub open spec fn raw_refusal(source: SplunkSource, request: RawRequest) -> Option<ApiError> {
    match raw_verdict(source, request) {
        Err(e) => Some(e),
        Ok(_) => match source::gzip_asked(text::text_of(request.encoding)) {
            Err(e) => Some(e),
            Ok(_) => if source.raw_require_channel && raw_channel(request) is None {
                Some(ApiError::MissingChannel)
            } else {
                None
            },
        },
    }
}

/// What a request to the raw endpoint is read as, for a channel.
pub open spec fn raw_pending(
    source: SplunkSource,
    request: RawRequest,
    channel: Seq<char>,
) -> PendingRawView {
    PendingRawView {
        context: RawContextView {
            channel,
            host: events::first_of(
                text::text_of(request.forwarded_for),
                text::text_of(request.remote),
            ),
            batch: source.acknowledgements,
            log_namespace: source.log_namespace,
            fix_bare_string_events: source.fix_bare_string_events,
        },
        metadata: UrlMetadataView {
            host: text::text_of(request.params.host),
            index: text::text_of(request.params.index),
            sourcetype: text::text_of(request.params.sourcetype),
            source: text::text_of(request.params.source),
            token: kept_token(source, raw_verdict(source, request)->Ok_0),
            time: raw::query_time(text::text_of(request.params.time), request.time_split),
            auto_forward_metadata: source.auto_forward_metadata,
        },
        gzip: source::gzip_asked(text::text_of(request.encoding)) == Ok::<bool, ApiError>(true),
        split_lines: source.raw_line_splitting,
        body: request.body@,
    }
}

/// Whether this is a channel for a request to the raw endpoint: the one that it names, else a
/// random one.
pub open spec fn is_raw_channel(request: RawRequest, channel: Seq<char>) -> bool {
    match raw_channel(request) {
        Some(named) => channel == named,
        None => encoding::is_random_uuid(channel),
    }
}

/// What is wrong with the body of a request to the raw endpoint, if anything is.
pub open spec fn body_error(pending: PendingRawView) -> Option<ApiError> {
    let data = encoding::unpacked(pending.body, pending.gzip);
    if pending.split_lines {
        raw::split_error(data)
    } else {
        encoding::raw_error(data)
    }
}

/// The messages of a request to the raw endpoint: its whole body, or its lines.
pub open spec fn raw_messages(pending: PendingRawView) -> Seq<Seq<u8>> {
    let data = encoding::unpacked(pending.body, pending.gzip)->0;
    if pending.split_lines {
        raw::messages(data)
    } else {
        seq![data]
    }
}

/// The events of a request to the raw endpoint. `clock` is what the clock showed at each of them.
pub open spec fn raw_outcome(
    pending: PendingRawView,
    schema: SchemaView,
    clock: Seq<Timestamp>,
) -> Seq<LogView> {
    raw::raw_logs(pending.context, schema, raw_messages(pending), clock).map_values(
        |log: LogView|
            raw::with_url_metadata(pending.context.log_namespace, schema, log, pending.metadata),
    )
}

/// Whether a step follows from what a request to the raw endpoint was read as: an answer where
/// its body is no good, else its events, to be sent on. A body in UTF-8 is split into the lines of
/// the text that it holds.
pub open spec fn is_raw_step(
    step: RawStep,
    pending: PendingRawView,
    schema: SchemaView,
    ack_id: Option<u64>,
) -> bool {
    let data = encoding::unpacked(pending.body, pending.gzip);
    &&& pending.split_lines && encoding::raw_error(data) is None ==> raw::splits_as_utf8(data->0)
    &&& match body_error(pending) {
        Some(e) => step matches RawStep::Respond(r) && r@ == response::error_reply(e),
        None => {
            &&& step matches RawStep::Send { events, ack_id: id }
            &&& id == ack_id
            &&& exists|clock: Seq<Timestamp>|
                #[trigger] raw_outcome(pending, schema, clock) == events::logs_view(events@)
                    && clock.len() == raw_messages(pending).len() && timestamp::are_readings(clock)
        },
    }
}

/// Builds the events of a request to the raw endpoint.
fn raw_step(pending: PendingRaw, schema: &LogSchema, ack_id: Option<u64>) -> (step: RawStep)
    ensures
        is_raw_step(step, pending@, schema@, ack_id),
{
    let PendingRaw { context, metadata, gzip, split_lines, body } = pending;
    let namespace = context.log_namespace;
    let mut logs: Vec<LogEvent> = Vec::new();
    if split_lines {
        match raw_events_split(body, gzip, &context, schema) {
            Ok(split) => {
                logs = split;
            },
            Err(e) => return RawStep::Respond(finish_err(e)),
        }
    } else {
        match raw_event(body, gzip, &context, schema) {
            Ok(log) => {
                logs.push(log);
                proof {
                    let data = encoding::unpacked(body@, gzip)->0;
                    let now = choose|now: Timestamp|
                        log@ == #[trigger] raw::raw_log(context@, schema@, data, now)
                            && timestamp::is_instant(now.secs, now.nanos);
                    assert(timestamp::are_readings(seq![now]));
                    assert(events::logs_view(logs@) =~= raw::raw_logs(
                        context@,
                        schema@,
                        seq![data],
                        seq![now],
                    ));
                }
            },
            Err(e) => return RawStep::Respond(finish_err(e)),
        }
    }
    let ghost bare = events::logs_view(logs@);
    assert(raw::are_raw_logs(bare, context@, schema@, raw_messages(pending@)));
    let ghost clock = choose|clock: Seq<Timestamp>|
        bare == #[trigger] raw::raw_logs(context@, schema@, raw_messages(pending@), clock)
            && clock.len() == raw_messages(pending@).len() && timestamp::are_readings(clock);
    let mut events: Vec<LogEvent> = Vec::new();
    for log in it: logs
        invariant
            events::logs_view(it.seq()) == bare,
            events.len() == it.index(),
            forall|i: int|
                0 <= i < events.len() ==> (#[trigger] events@[i])@ == raw::with_url_metadata(
                    namespace,
                    schema@,
                    bare[i],
                    metadata@,
                ),
    {
        let mut log = log;
        assert(bare[it.index() as int] == log@);
        add_url_metadata(namespace, schema, &mut log, &metadata);
        events.push(log);
    }
    assert(events::logs_view(events@) =~= raw_outcome(pending@, schema@, clock));
    RawStep::Send { events, ack_id }
}

impl SplunkSource {
    /// Reads a request to the raw endpoint. Where ids are given, one is needed before its events
    /// are built.
    pub fn raw_service(&self, schema: &LogSchema, request: RawRequest) -> (step: RawStep)
        ensures
            match raw_refusal(*self, request) {
                Some(e) => step matches RawStep::Respond(r) && r@ == response::error_reply(e),
                None => exists|id: Seq<char>| #[trigger]
                    is_raw_channel(request, id) && if self.acknowledgements {
                        &&& step matches RawStep::AckId { channel, pending }
                        &&& channel@ == id
                        &&& pending@ == raw_pending(*self, request, id)
                    } else {
                        is_raw_step(step, raw_pending(*self, request, id), schema@, None)
                    },
            },
    {
        let token = match self.authorization(request.authorization, request.url_token) {
            Ok(token) => token,
            Err(e) => return RawStep::Respond(finish_err(e)),
        };
        let packed = match gzip(&request.encoding) {
            Ok(packed) => packed,
            Err(e) => return RawStep::Respond(finish_err(e)),
        };
        let named = match request.channel_header {
            Some(channel) => Some(channel),
            None => request.params.channel,
        };
        let channel = match named {
            Some(channel) => channel,
            None => {
                if self.raw_require_channel {
                    return RawStep::Respond(finish_err(ApiError::MissingChannel));
                }
                new_channel_id()
            },
        };
        let pending = PendingRaw {
            context: RawContext {
                channel: channel.clone(),
                remote: request.remote,
                xff: request.forwarded_for,
                batch: self.acknowledgements,
                log_namespace: self.log_namespace,
                fix_bare_string_events: self.fix_bare_string_events,
            },
            metadata: UrlMetadata {
                time: time_of_query(&request.params.time, request.time_split),
                host: request.params.host,
                index: request.params.index,
                sourcetype: request.params.sourcetype,
                source: request.params.source,
                token: if self.store_hec_token {
                    token
                } else {
                    None
                },
                auto_forward_metadata: self.auto_forward_metadata,
            },
            gzip: packed,
            split_lines: self.raw_line_splitting,
            body: request.body,
        };
        assert(is_raw_channel(request, channel@));
        assert(pending@ == raw_pending(*self, request, channel@));
        if self.acknowledgements {
            RawStep::AckId { channel, pending }
        } else {
            raw_step(pending, schema, None)
        }
    }
}

/// Goes on with a request to the raw endpoint once an id was asked for.
pub fn raw_acknowledged(
    pending: PendingRaw,
    schema: &LogSchema,
    ack_id: Result<u64, ApiError>,
) -> (step: RawStep)
    ensures
        match ack_id {
            Ok(id) => is_raw_step(step, pending@, schema@, Some(id)),
            Err(e) => step matches RawStep::Respond(r) && r@ == response::error_reply(e),
        },
{
    match ack_id {
        Ok(id) => raw_step(pending, schema, Some(id)),
        Err(e) => RawStep::Respond(finish_err(e)),
    }
}

/// Answers a request to the raw endpoint once its events were sent on.
pub fn raw_delivered(delivery: Delivery, ack_id: Option<u64>) -> (r: Reply)
    ensures
        r@ == match delivery {
            Delivery::Accepted => response::ok_reply(ack_id),
            Delivery::Closed => response::error_reply(ApiError::ServerShutdown),
        },
{
    match delivery {
        Delivery::Accepted => finish_ok(ack_id),
        Delivery::Closed => finish_err(ApiError::ServerShutdown),
    }
}

} // verus!
