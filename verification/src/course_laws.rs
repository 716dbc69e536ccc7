//! What holds of every request to the event endpoint and to the raw endpoint, from what stands in
//! the request to what is done about it.
use vstd::prelude::*;
use vstd::utf8::*;

use crate::answer_laws;
use crate::auth;
use crate::encoding;
use crate::event_time;
use crate::event_time::{EventTime, TimeReading};
use crate::events;
use crate::events::{EventIteratorGenerator, GeneratorView, Input, InputView, IteratorView};
use crate::exchange;
use crate::exchange::{
    Delivery, EventRequest, EventStep, PendingEvents, PendingRaw, PendingRawView, RawRequest,
    RawStep,
};
use crate::json;
use crate::json::{JsonView, Number};
use crate::log_event::{LogEvent, LogNamespace, LogSchema, LogView, SchemaView};
use crate::log_laws;
use crate::raw;
use crate::raw::UrlMetadata;
use crate::raw_log_laws;
use crate::response;
use crate::response::{ApiError, HecResponseMetadata};
use crate::source::SplunkSource;
use crate::text;
use crate::text_laws;
use crate::timestamp;
use crate::timestamp::Timestamp;
use crate::value;
use crate::value::ValueView;

verus! {

/// An optional text is there exactly if the string is, and has its characters.
pub proof fn law_optional_texts_are_their_characters(s: Option<String>)
    ensures
        s is None ==> text::text_of(s) is None,
        s matches Some(t) ==> text::text_of(s) == Some(t@),
{
}

/// Texts are their characters, one by one.
pub proof fn law_texts_are_their_characters(strings: Seq<String>, i: int)
    requires
        0 <= i < strings.len(),
    ensures
        auth::texts(strings).len() == strings.len(),
        auth::texts(strings)[i] == strings[i]@,
        value::path_view(strings).len() == strings.len(),
        value::path_view(strings)[i] == strings[i]@,
{
}

/// A schema shows its paths, each where there is one.
pub proof fn law_schemas_show_their_paths(schema: LogSchema)
    ensures
        schema.message_key matches Some(path) ==> schema@.message_key == Some(
            value::path_view(path@),
        ),
        schema.message_key is None ==> schema@.message_key is None,
        schema.host_key matches Some(path) ==> schema@.host_key == Some(value::path_view(path@)),
        schema.host_key is None ==> schema@.host_key is None,
        schema.timestamp_key matches Some(path) ==> schema@.timestamp_key == Some(
            value::path_view(path@),
        ),
        schema.timestamp_key is None ==> schema@.timestamp_key is None,
        schema.source_type_key matches Some(path) ==> schema@.source_type_key == Some(
            value::path_view(path@),
        ),
        schema.source_type_key is None ==> schema@.source_type_key is None,
{
}

/// What an iterator starts from, what a request gives it and what it builds show what they hold.
pub proof fn law_events_show_what_they_hold(
    f: EventIteratorGenerator,
    items: Seq<Option<Input>>,
    logs: Seq<LogEvent>,
    i: int,
)
    requires
        0 <= i < items.len(),
        0 <= i < logs.len(),
    ensures
        f@ == (GeneratorView {
            channel: text::text_of(f.channel),
            batch: f.batch,
            token: text::text_of(f.token),
            log_namespace: f.log_namespace,
            remote: text::text_of(f.remote),
            remote_addr: text::text_of(f.remote_addr),
            auto_forward_metadata: f.auto_forward_metadata,
            fix_bare_string_events: f.fix_bare_string_events,
            auto_extract_timestamp: f.auto_extract_timestamp,
        }),
        events::items_view(items).len() == items.len(),
        items[i] is None ==> events::items_view(items)[i] is None,
        items[i] matches Some(input) ==> events::items_view(items)[i] == Some(
            InputView { json: input.json@, time: input.time },
        ),
        events::logs_view(logs).len() == logs.len(),
        events::logs_view(logs)[i] == logs[i]@,
{
}

/// What a raw request was read as shows what it holds.
pub proof fn law_raw_requests_show_what_they_hold(pending: PendingRaw, meta: UrlMetadata)
    ensures
        pending@.context == pending.context@,
        pending@.metadata == pending.metadata@,
        pending@.gzip == pending.gzip,
        pending@.split_lines == pending.split_lines,
        pending@.body == pending.body@,
        meta@.host == text::text_of(meta.host),
        meta@.index == text::text_of(meta.index),
        meta@.sourcetype == text::text_of(meta.sourcetype),
        meta@.source == text::text_of(meta.source),
        meta@.token == text::text_of(meta.token),
        meta@.time == meta.time,
        meta@.auto_forward_metadata == meta.auto_forward_metadata,
{
}

/// Whether the credentials of a request pass, and its token: those of its header, else of its URL.
pub open spec fn passed(
    source: SplunkSource,
    header: Option<String>,
    url_token: Option<String>,
) -> Result<Option<Seq<char>>, ApiError> {
    auth::authorized(
        auth::texts(source.valid_credentials@),
        source.allow_query_string_auth,
        text::text_of(header),
        text::text_of(url_token),
    )
}

/// A request to the event endpoint is refused for its credentials first, then for an encoding other
/// than gzip, then for want of a channel in its header and in its query where ids are given, then
/// for a body that cannot be unpacked; and for nothing else.
pub proof fn law_event_requests_are_refused_in_order(source: SplunkSource, request: EventRequest)
    ensures
        ({
            let verdict = passed(source, request.authorization, request.url_token);
            let error = exchange::event_refusal(source, request);
            let plain = request.encoding is None;
            let packed = request.encoding matches Some(s) && s@ == "gzip"@;
            let channel = request.channel_header is Some || request.params.channel is Some;
            &&& verdict matches Err(e) ==> error == Some(e)
            &&& verdict is Ok && !plain && !packed ==> error == Some(ApiError::UnsupportedEncoding)
            &&& verdict is Ok && (plain || packed) && source.acknowledgements && !channel ==> error
                == Some(ApiError::MissingChannel)
            &&& verdict is Ok && (channel || !source.acknowledgements) ==> {
                &&& plain ==> error is None
                &&& packed && encoding::gunzipped(request.body@) is None ==> error == Some(
                    ApiError::BadRequest,
                )
                &&& packed && encoding::gunzipped(request.body@) is Some ==> error is None
            }
        }),
{
}

/// The events of a request have the channel of its header, else of its query; its token where
/// tokens are kept; who it was forwarded for and its peer; and the settings of the source. Times
/// are extracted where the query says `true` or `1`.
pub proof fn law_event_requests_are_read(source: SplunkSource, request: EventRequest)
    ensures
        ({
            let f = exchange::event_generator(source, request);
            let verdict = passed(source, request.authorization, request.url_token);
            let asked = request.params.auto_extract_timestamp;
            &&& request.channel_header matches Some(channel) ==> f.channel == Some(channel@)
            &&& request.channel_header is None ==> f.channel == text::text_of(
                request.params.channel,
            )
            &&& verdict matches Ok(token) ==> f.token == if source.store_hec_token {
                token
            } else {
                None
            }
            &&& f.batch == source.acknowledgements
            &&& f.log_namespace == source.log_namespace
            &&& f.remote == text::text_of(request.remote)
            &&& f.remote_addr == text::text_of(request.forwarded_for)
            &&& f.auto_forward_metadata == source.auto_forward_metadata
            &&& f.fix_bare_string_events == source.fix_bare_string_events
            &&& asked is None ==> !f.auto_extract_timestamp
            &&& asked matches Some(s) ==> (f.auto_extract_timestamp <==> s@ == "true"@ || s@
                == "1"@)
        }),
{
}

/// The items of a request are those of the text that its body holds, unpacked where it is packed.
pub proof fn law_event_bodies_are_read(
    source: SplunkSource,
    request: EventRequest,
    pending: PendingEvents,
)
    requires
        exchange::is_pending(pending, source, request),
        exchange::event_refusal(source, request) is None,
    ensures
        pending.generator@ == exchange::event_generator(source, request),
        ({
            let data = if request.encoding is None {
                request.body@
            } else {
                encoding::gunzipped(request.body@)->0
            };
            let shown = json::stream_view(pending.items@);
            &&& pending.byte_size == data.len()
            &&& shown == json::values_in(encoding::utf8_lossy(data))
            &&& valid_utf8(data) ==> shown == json::values_in(decode_utf8(data))
        }),
{
    law_event_requests_are_refused_in_order(source, request);
}

/// The double of each item's time is asked to be split, and of no other item.
pub proof fn law_doubles_are_split(step: EventStep, pending: PendingEvents, id: Option<u64>, i: int)
    requires
        exchange::is_split_step(step, pending, id),
        0 <= i < pending.items.len(),
    ensures
        step matches EventStep::Split { doubles, pending: p, ack_id } && p == pending && ack_id
            == id && doubles.len() == pending.items.len() && (match pending.items@[i] {
            None => doubles@[i] is None,
            Some(json) => match event_time::time_reading(json@) {
                TimeReading::Number(Number::Double(bits)) => doubles@[i] == Some(bits),
                TimeReading::Number(Number::PosInt(_)) => doubles@[i] is None,
                TimeReading::Number(Number::NegInt(_)) => doubles@[i] is None,
                TimeReading::Absent => doubles@[i] is None,
                TimeReading::Unreadable => doubles@[i] is None,
            },
        }),
{
}

/// Each item of a request is an input with its own JSON value, and its time is the one that the
/// value's `time` field gives; what is no JSON value stays none.
pub proof fn law_items_have_their_own_times(
    items: Seq<Option<JsonView>>,
    splits: Seq<(i64, u32)>,
    i: int,
)
    requires
        0 <= i < items.len(),
    ensures
        exchange::inputs(items, splits).len() == items.len(),
        items[i] is None ==> exchange::inputs(items, splits)[i] is None,
        items[i] matches Some(json) ==> {
            &&& exchange::inputs(items, splits)[i] matches Some(input)
            &&& input.json == json
            &&& match json::field(json, "time"@) {
                Some(JsonView::Number(Number::PosInt(n))) => input.time == EventTime::Stamp(n),
                Some(JsonView::Number(Number::NegInt(n))) => input.time == (EventTime::Instant {
                    secs: n,
                    nanos: 0,
                }),
                Some(JsonView::Number(Number::Double(_))) => input.time == (EventTime::Instant {
                    secs: splits[i].0,
                    nanos: splits[i].1,
                }),
                Some(JsonView::Text(s)) => match json::number_in(s) {
                    Some(Number::PosInt(n)) => input.time == EventTime::Stamp(n),
                    Some(Number::NegInt(n)) => input.time == (EventTime::Instant {
                        secs: n,
                        nanos: 0,
                    }),
                    Some(Number::Double(_)) => input.time == (EventTime::Instant {
                        secs: splits[i].0,
                        nanos: splits[i].1,
                    }),
                    None => input.time == EventTime::Unreadable,
                },
                _ => input.time == EventTime::Absent,
            }
        },
{
}

/// What comes of a request comes of its items in their order, from an iterator at its start, with
/// one reading of the clock for it and one for each item.
pub proof fn law_outcomes_come_of_the_items(
    logs: Seq<LogView>,
    error: Option<ApiError>,
    f: GeneratorView,
    schema: SchemaView,
    items: Seq<Option<InputView>>,
) -> (read: (Timestamp, Seq<Timestamp>))
    requires
        exchange::is_outcome(logs, error, f, schema, items),
    ensures
        read.1.len() == items.len(),
        events::outcome(events::iterator_start(f, schema, read.0), schema, items, read.1).0 == logs,
        events::outcome(events::iterator_start(f, schema, read.0), schema, items, read.1).1
            == error,
        -8_334_601_228_800 <= read.0.secs <= 8_210_266_876_799,
        forall|i: int|
            0 <= i < read.1.len() ==> -8_334_601_228_800 <= (#[trigger] read.1[i]).secs
                <= 8_210_266_876_799,
{
    let (now, clock) = choose|now: Timestamp, clock: Seq<Timestamp>|
        #[trigger] events::outcome(
            events::iterator_start(f, schema, now),
            schema,
            items,
            clock,
        ) == (logs, error) && timestamp::is_instant(now.secs, now.nanos) && clock.len()
            == items.len() && timestamp::are_readings(clock);
    (now, clock)
}

/// Whether the calendar has the time that an item gives.
pub open spec fn is_within_the_calendar(item: Option<InputView>) -> bool {
    item matches Some(input) ==> (input.time matches EventTime::Instant { secs, nanos } ==>
        -8_334_601_228_800 <= secs <= 8_210_266_876_799 && (nanos < 1_000_000_000 || (nanos
        < 2_000_000_000 && secs as int % 60 == 59)))
}

/// A request is not given up where the calendar has the time of every item, or of every item before
/// the first that something is wrong with and of that one; and it is where the calendar lacks that
/// of an item with an event, and nothing is wrong with the items before.
pub proof fn law_times_are_within_the_calendar(items: Seq<Option<InputView>>, k: int)
    ensures
        (forall|i: int| 0 <= i < items.len() ==> is_within_the_calendar(#[trigger] items[i]))
            ==> events::in_calendar(items),
        0 <= k < items.len() && events::item_error(items[k], 0) is Some && (forall|i: int|
            0 <= i <= k ==> is_within_the_calendar(#[trigger] items[i])) ==> events::in_calendar(
            items,
        ),
        0 <= k < items.len() && items[k] is Some && !is_within_the_calendar(items[k])
            && events::event_error(items[k]->0.json, 0) is None && (forall|i: int|
            0 <= i < k ==> events::item_error(#[trigger] items[i], 0) is None)
            ==> !events::in_calendar(items),
{
    if 0 <= k < items.len() && (forall|i: int|
        0 <= i < k ==> events::item_error(#[trigger] items[i], 0) is None) {
        assert(events::all_fine(items, k));
    }
    assert forall|n: int| 0 <= n < items.len() && is_within_the_calendar(items[n]) implies !(
    events::needs_missing_time(#[trigger] items[n])) by {}
}

/// An iterator can take the end of the items, and an item where it is done; else it can take an
/// item exactly if it can count one more event and the calendar has the time of its event.
pub proof fn law_iterators_take_items(iter: IteratorView, item: Option<InputView>)
    ensures
        events::is_takeable(iter, None),
        iter.done ==> events::is_takeable(iter, Some(item)),
        !iter.done ==> (events::is_takeable(iter, Some(item)) <==> iter.events < usize::MAX && (
        item is None || events::event_error(item->0.json, 0) is Some || is_within_the_calendar(
            item,
        ))),
{
}

/// An iterator that is done gives nothing and stays as it is. Another gives for an item that
/// something is wrong with what is wrong, and is done, but for that as it was; for any other item
/// the log that is built from it; and at the end nothing, unless there was no event.
pub proof fn law_iterators_give_logs_or_an_error(
    iter: IteratorView,
    schema: SchemaView,
    item: Option<InputView>,
    now: Timestamp,
)
    ensures
        ({
            let end = events::next_of(iter, schema, None, now);
            let (given, after) = events::next_of(iter, schema, Some(item), now);
            &&& iter.done ==> end == (None::<Result<LogView, ApiError>>, iter) && given is None
                && after == iter
            &&& !iter.done && iter.events == 0 ==> end.0 == Some(
                Err::<LogView, ApiError>(ApiError::NoData),
            ) && end.1 == (IteratorView { done: true, ..iter })
            &&& !iter.done && iter.events > 0 ==> end.0 is None && end.1 == iter
            &&& !iter.done ==> match events::item_error(item, iter.events) {
                Some(e) => given == Some(Err::<LogView, ApiError>(e)) && after == (IteratorView {
                    done: true,
                    ..iter
                }),
                None => given == Some(
                    Ok::<LogView, ApiError>(
                        events::built_log(iter, schema, item->0.json, item->0.time, now),
                    ),
                ) && !after.done,
            }
        }),
{
}

/// A request is answered with success, and its id where it has one, once its events were taken
/// over and nothing was wrong with them; with what was wrong; and 503 where nobody took them over.
pub proof fn law_events_are_answered(error: ApiError, id: u64, ack_id: Option<u64>)
    ensures
        answer_laws::tells(
            exchange::event_reply(None, Delivery::Accepted, None),
            200,
            0,
            "Success"@,
            None,
        ),
        answer_laws::tells(
            exchange::event_reply(None, Delivery::Accepted, Some(id)),
            200,
            0,
            "Success"@,
            Some(HecResponseMetadata::AckId(id)),
        ),
        exchange::event_reply(Some(error), Delivery::Accepted, ack_id) == response::error_reply(
            error,
        ),
        exchange::event_reply(None, Delivery::Closed, ack_id).status == 503,
        exchange::event_reply(Some(error), Delivery::Closed, ack_id)
            == exchange::event_reply(None, Delivery::Closed, None),
{
}

/// A request to the raw endpoint is refused for its credentials first, then for an encoding other
/// than gzip, then for want of a channel in its header and in its query where one is required; and
/// for nothing else before its body is looked at.
pub proof fn law_raw_requests_are_refused_in_order(source: SplunkSource, request: RawRequest)
    ensures
        ({
            let verdict = passed(source, request.authorization, request.url_token);
            let error = exchange::raw_refusal(source, request);
            let known = request.encoding is None || (request.encoding matches Some(s) && s@
                == "gzip"@);
            let channel = request.channel_header is Some || request.params.channel is Some;
            &&& verdict matches Err(e) ==> error == Some(e)
            &&& verdict is Ok && !known ==> error == Some(ApiError::UnsupportedEncoding)
            &&& verdict is Ok && known && source.raw_require_channel && !channel ==> error == Some(
                ApiError::MissingChannel,
            )
            &&& verdict is Ok && known && (channel || !source.raw_require_channel) ==> error is None
        }),
{
}

/// The channel of a request to the raw endpoint is that of its header, else of its query, else a
/// random one: 36 characters, hexadecimal digits with hyphens at four places.
pub proof fn law_raw_channels(request: RawRequest, channel: Seq<char>)
    ensures
        request.channel_header matches Some(named) ==> (exchange::is_raw_channel(request, channel)
            <==> channel == named@),
        request.channel_header is None ==> (request.params.channel matches Some(named) ==> (
        exchange::is_raw_channel(request, channel) <==> channel == named@)),
        request.channel_header is None && request.params.channel is None
            && exchange::is_raw_channel(request, channel) ==> {
            &&& channel.len() == 36
            &&& channel[8] == '-' && channel[13] == '-' && channel[18] == '-' && channel[23] == '-'
        },
{
}

/// The events of a raw request have its channel, who it was forwarded for, else its peer, the
/// metadata and the time of its query, its token where tokens are kept, and the settings of the
/// source; its body is as it came.
pub proof fn law_raw_requests_are_read(
    source: SplunkSource,
    request: RawRequest,
    channel: Seq<char>,
)
    ensures
        ({
            let pending = exchange::raw_pending(source, request, channel);
            let verdict = passed(source, request.authorization, request.url_token);
            &&& pending.context.channel == channel
            &&& request.forwarded_for matches Some(host) ==> pending.context.host == Some(host@)
            &&& request.forwarded_for is None ==> pending.context.host == text::text_of(
                request.remote,
            )
            &&& pending.context.batch == source.acknowledgements
            &&& pending.context.log_namespace == source.log_namespace
            &&& pending.context.fix_bare_string_events == source.fix_bare_string_events
            &&& pending.metadata.host == text::text_of(request.params.host)
            &&& pending.metadata.index == text::text_of(request.params.index)
            &&& pending.metadata.sourcetype == text::text_of(request.params.sourcetype)
            &&& pending.metadata.source == text::text_of(request.params.source)
            &&& pending.metadata.time == raw::query_time(
                text::text_of(request.params.time),
                request.time_split,
            )
            &&& verdict matches Ok(token) ==> pending.metadata.token == if source.store_hec_token {
                token
            } else {
                None
            }
            &&& pending.metadata.auto_forward_metadata == source.auto_forward_metadata
            &&& pending.gzip <==> (request.encoding matches Some(s) && s@ == "gzip"@)
            &&& pending.split_lines == source.raw_line_splitting
            &&& pending.body == request.body@
        }),
{
}

/// A body that is not split is one message, byte for byte, and is refused only where it is empty
/// or cannot be unpacked; one that is split is refused too where its text is nothing but white
/// space, and each line with another character is a message.
pub proof fn law_raw_bodies(pending: PendingRawView, data: Seq<u8>)
    requires
        data == if pending.gzip {
            encoding::gunzipped(pending.body)->0
        } else {
            pending.body
        },
    ensures
        pending.gzip && encoding::gunzipped(pending.body) is None ==> exchange::body_error(pending)
            == Some(ApiError::InvalidDataFormat { event: 0 }),
        !pending.gzip || encoding::gunzipped(pending.body) is Some ==> exchange::body_error(pending)
            == if data == Seq::<u8>::empty() || (pending.split_lines && text_laws::all_space(
            encoding::utf8_lossy(data),
        )) {
            Some(ApiError::NoData)
        } else {
            None
        },
        !pending.split_lines ==> exchange::raw_messages(pending) == seq![data],
        pending.split_lines ==> exchange::raw_messages(pending) == raw::messages(data),
{
    raw_log_laws::law_split_bodies_without_data(data);
    assert(data.len() == 0 ==> data =~= Seq::empty());
}

/// A request to the raw endpoint whose body is no good is answered with what is wrong; else each
/// of its messages becomes one event, in their order, and the id is kept. By the default schema,
/// each event has for every name what its message, its context and its URL say, and nothing else.
pub proof fn law_raw_messages_become_events(
    step: RawStep,
    pending: PendingRawView,
    id: Option<u64>,
    i: int,
    name: Seq<char>,
) -> (now: Timestamp)
    requires
        exchange::is_raw_step(step, pending, log_laws::default_schema(), id),
    ensures
        exchange::body_error(pending) matches Some(e) ==> (step matches RawStep::Respond(r) && r@
            == response::error_reply(e)),
        exchange::body_error(pending) is None ==> {
            &&& step matches RawStep::Send { events, ack_id }
            &&& ack_id == id
            &&& events.len() == exchange::raw_messages(pending).len()
            &&& 0 <= i < events.len() ==> {
                let log = events@[i]@;
                let context = pending.context;
                let meta = pending.metadata;
                let message = exchange::raw_messages(pending)[i];
                &&& -8_334_601_228_800 <= now.secs <= 8_210_266_876_799
                &&& log.hec_token == meta.token
                &&& log.notify == context.batch
                &&& context.log_namespace is Legacy ==> value::field(log.value, name)
                    == raw_log_laws::legacy_field(context, meta, message, now, name)
                &&& context.log_namespace is Vector ==> {
                    &&& value::field(log.value, name) == raw_log_laws::vector_field(
                        context,
                        meta,
                        message,
                        name,
                    )
                    &&& !context.fix_bare_string_events && !meta.auto_forward_metadata ==> log.value
                        == ValueView::Bytes(message)
                    &&& value::field(log.metadata, "splunk_hec_full"@) matches Some(inner)
                        && value::field(inner, name) == raw_log_laws::vector_metadata(
                        context,
                        meta,
                        name,
                    )
                }
            }
        },
{
    let schema = log_laws::default_schema();
    if exchange::body_error(pending) is None {
        let namespace = pending.context.log_namespace;
        let events = step->Send_events;
        let clock = choose|clock: Seq<Timestamp>|
            #[trigger] exchange::raw_outcome(pending, schema, clock) == events::logs_view(events@)
                && clock.len() == exchange::raw_messages(pending).len() && timestamp::are_readings(
                clock,
            );
        let built = exchange::raw_outcome(pending, schema, clock);
        assert(built.len() == exchange::raw_messages(pending).len());
        assert(events.len() == built.len());
        if 0 <= i < events.len() {
            let message = exchange::raw_messages(pending)[i];
            assert(events@[i]@ == events::logs_view(events@)[i]);
            assert(built[i] == raw::with_url_metadata(
                namespace,
                schema,
                raw::raw_log(pending.context, schema, message, clock[i]),
                pending.metadata,
            ));
            match namespace {
                LogNamespace::Legacy => raw_log_laws::law_raw_logs_of_the_legacy_namespace(
                    pending.context,
                    pending.metadata,
                    message,
                    clock[i],
                    name,
                ),
                LogNamespace::Vector => raw_log_laws::law_raw_logs_of_the_vector_namespace(
                    pending.context,
                    pending.metadata,
                    message,
                    clock[i],
                    name,
                ),
            }
        }
        clock[i]
    } else {
        Timestamp { secs: 0, nanos: 0 }
    }
}

} // verus!
