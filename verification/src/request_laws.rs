//! What holds of every request to the event endpoint.
use vstd::prelude::*;
use vstd::utf8::*;

use crate::event_laws;
use crate::event_time;
use crate::event_time::{EventTime, Time};
use crate::events;
use crate::events::{InputView, IteratorView, INDEX, SOURCE, SOURCETYPE};
use crate::exchange;
use crate::exchange::{Delivery, EventRequest};
use crate::json;
use crate::json::JsonView;
use crate::log_event::{LogNamespace, LogView, SchemaView};
use crate::log_laws;
use crate::response;
use crate::response::{ApiError, BodyView, HecResponseMetadata};
use crate::source;
use crate::source::SplunkSource;
use crate::text;
use crate::timestamp;
use crate::timestamp::Timestamp;
use crate::value;
use crate::value::ValueView;
use crate::value_laws;

verus! {

proof fn lemma_fine_progress(
    start: IteratorView,
    schema: SchemaView,
    items: Seq<Option<InputView>>,
    clock: Seq<Timestamp>,
    n: int,
)
    requires
        0 <= n <= items.len(),
        !start.done,
        start.events + items.len() <= usize::MAX,
        events::all_fine(items, n),
    ensures
        !events::progress(start, schema, items, clock, n).iter.done,
        events::progress(start, schema, items, clock, n).error is None,
        events::progress(start, schema, items, clock, n).events.len() == n,
        events::progress(start, schema, items, clock, n).iter.events == start.events + n,
    decreases n,
{
    if n > 0 {
        lemma_fine_progress(start, schema, items, clock, n - 1);
        assert(events::item_error(items[n - 1], 0) is None);
    }
}

/// The iterator after `n` calls of `next`, which offer it these items.
pub open spec fn after_calls(
    start: IteratorView,
    schema: SchemaView,
    offers: Seq<Option<Option<InputView>>>,
    clock: Seq<Timestamp>,
    n: int,
) -> IteratorView
    decreases n,
{
    if n <= 0 {
        start
    } else {
        events::next_of(
            after_calls(start, schema, offers, clock, n - 1),
            schema,
            offers[n - 1],
            clock[n - 1],
        ).1
    }
}

/// What the call of `next` gives that comes after `n` others.
pub open spec fn call_gives(
    start: IteratorView,
    schema: SchemaView,
    offers: Seq<Option<Option<InputView>>>,
    clock: Seq<Timestamp>,
    n: int,
) -> Option<Result<LogView, ApiError>> {
    events::next_of(after_calls(start, schema, offers, clock, n), schema, offers[n], clock[n]).0
}

/// If errors, an iterator is done with input: after a call that gives an error, no call gives an
/// event or an error, and the iterator stays as it is.
pub proof fn law_nothing_comes_after_an_error(
    start: IteratorView,
    schema: SchemaView,
    offers: Seq<Option<Option<InputView>>>,
    clock: Seq<Timestamp>,
    k: int,
    m: int,
)
    requires
        0 <= k < m,
        call_gives(start, schema, offers, clock, k) matches Some(Err(_)),
    ensures
        call_gives(start, schema, offers, clock, m) is None,
        after_calls(start, schema, offers, clock, m) == after_calls(
            start,
            schema,
            offers,
            clock,
            k + 1,
        ),
    decreases m,
{
    if k + 1 < m {
        law_nothing_comes_after_an_error(start, schema, offers, clock, k, m - 1);
    }
}

/// The end of the items is an error exactly where there was no event and no error before, and the
/// iterator is done after it.
pub proof fn law_the_end_without_events_is_an_error(
    iter: IteratorView,
    schema: SchemaView,
    now: Timestamp,
)
    ensures
        events::next_of(iter, schema, None, now).0 == if !iter.done && iter.events == 0 {
            Some(Err::<LogView, ApiError>(ApiError::NoData))
        } else {
            None
        },
        events::next_of(iter, schema, None, now).0 is Some ==> events::next_of(
            iter,
            schema,
            None,
            now,
        ).1.done,
{
}

/// The first item that something is wrong with ends a request: the items before it have become
/// events, it is refused by their number, and nothing comes of the items after it.
pub proof fn law_first_error_ends_the_request(
    start: IteratorView,
    schema: SchemaView,
    items: Seq<Option<InputView>>,
    clock: Seq<Timestamp>,
    k: int,
)
    requires
        !start.done,
        start.events == 0,
        items.len() <= usize::MAX,
        0 <= k < items.len(),
        events::all_fine(items, k),
        events::item_error(items[k], 0) is Some,
    ensures
        events::outcome(start, schema, items, clock).0.len() == k,
        events::outcome(start, schema, items, clock).1 == events::item_error(
            items[k],
            k as usize,
        ),
{
    lemma_fine_progress(start, schema, items, clock, k);
    events::lemma_progress_ends(start, schema, items, clock, k + 1, items.len() as int);
}

/// Where nothing is wrong with any item, and there is one, each becomes an event and there is no
/// error.
pub proof fn law_fine_requests_are_taken_whole(
    start: IteratorView,
    schema: SchemaView,
    items: Seq<Option<InputView>>,
    clock: Seq<Timestamp>,
)
    requires
        !start.done,
        start.events == 0,
        0 < items.len() <= usize::MAX,
        events::all_fine(items, items.len() as int),
    ensures
        events::outcome(start, schema, items, clock).0.len() == items.len(),
        events::outcome(start, schema, items, clock).1 is None,
{
    lemma_fine_progress(start, schema, items, clock, items.len() as int);
}

/// A request without items holds no data.
pub proof fn law_empty_requests_hold_no_data(
    start: IteratorView,
    schema: SchemaView,
    clock: Seq<Timestamp>,
)
    requires
        !start.done,
        start.events == 0,
    ensures
        events::outcome(start, schema, Seq::empty(), clock) == (
            Seq::<LogView>::empty(),
            Some(ApiError::NoData),
        ),
{
}

proof fn lemma_progress_events(
    start: IteratorView,
    schema: SchemaView,
    items: Seq<Option<InputView>>,
    clock: Seq<Timestamp>,
    n: int,
    i: int,
)
    requires
        0 <= n <= items.len(),
        0 <= i < events::progress(start, schema, items, clock, n).events.len(),
    ensures
        i < n,
        !events::progress(start, schema, items, clock, i).iter.done,
        events::item_error(items[i], 0) is None,
        events::progress(start, schema, items, clock, n).events[i] == events::built_log(
            events::progress(start, schema, items, clock, i).iter,
            schema,
            items[i]->0.json,
            items[i]->0.time,
            clock[i],
        ),
    decreases n,
{
    if n > 0 {
        let before = events::progress(start, schema, items, clock, n - 1);
        lemma_events_keep_up(start, schema, items, clock, n - 1);
        if i < before.events.len() {
            lemma_progress_events(start, schema, items, clock, n - 1, i);
        }
    }
}

proof fn lemma_events_keep_up(
    start: IteratorView,
    schema: SchemaView,
    items: Seq<Option<InputView>>,
    clock: Seq<Timestamp>,
    n: int,
)
    requires
        0 <= n,
    ensures
        !events::progress(start, schema, items, clock, n).iter.done ==> events::progress(
            start,
            schema,
            items,
            clock,
            n,
        ).events.len() == n,
    decreases n,
{
    if n > 0 {
        lemma_events_keep_up(start, schema, items, clock, n - 1);
    }
}

/// The events of a request come in the order of its items: each is built from the item at its
/// place, by the iterator as the items before have left it.
pub proof fn law_events_come_in_order(
    start: IteratorView,
    schema: SchemaView,
    items: Seq<Option<InputView>>,
    clock: Seq<Timestamp>,
    i: int,
)
    requires
        0 <= i < events::outcome(start, schema, items, clock).0.len(),
    ensures
        i < items.len(),
        events::item_error(items[i], 0) is None,
        !events::progress(start, schema, items, clock, i).iter.done,
        events::outcome(start, schema, items, clock).0[i] == events::built_log(
            events::progress(start, schema, items, clock, i).iter,
            schema,
            items[i]->0.json,
            items[i]->0.time,
            clock[i],
        ),
{
    lemma_progress_events(start, schema, items, clock, items.len() as int, i);
}

/// The text that the last of the first `n` items has in a field, of those that have a text there.
pub open spec fn last_given(
    items: Seq<Option<InputView>>,
    n: int,
    field: Seq<char>,
    start: Option<ValueView>,
) -> Option<ValueView>
    decreases n,
{
    if n <= 0 {
        start
    } else {
        match json::field(items[n - 1]->0.json, field) {
            Some(JsonView::Text(s)) => Some(ValueView::Bytes(encode_utf8(s))),
            _ => last_given(items, n - 1, field, start),
        }
    }
}

/// The time that the last of the first `n` items was given, of those that were given one.
pub open spec fn last_time(items: Seq<Option<InputView>>, n: int, start: Time) -> Time
    decreases n,
{
    if n <= 0 {
        start
    } else {
        match items[n - 1]->0.time {
            EventTime::Stamp(t) => Time::Provided(timestamp::timestamp_of(t as int)->0),
            EventTime::Instant { secs, nanos } => Time::Provided(Timestamp { secs, nanos }),
            _ => last_time(items, n - 1, start),
        }
    }
}

/// Host, index, source, source type and time last: an item that does not give one has that of the
/// last item before it that did.
pub proof fn law_metadata_lasts(
    start: IteratorView,
    schema: SchemaView,
    items: Seq<Option<InputView>>,
    clock: Seq<Timestamp>,
    n: int,
)
    requires
        0 <= n <= items.len(),
        event_laws::is_whole(start, schema),
        !events::progress(start, schema, items, clock, n).iter.done,
    ensures
        ({
            let iter = events::progress(start, schema, items, clock, n).iter;
            &&& iter.host.value == last_given(items, n, "host"@, start.host.value)
            &&& iter.index.value == last_given(items, n, "index"@, start.index.value)
            &&& iter.source.value == last_given(items, n, "source"@, start.source.value)
            &&& iter.sourcetype.value == last_given(items, n, "sourcetype"@, start.sourcetype.value)
            &&& iter.time == last_time(items, n, start.time)
        }),
    decreases n,
{
    if n > 0 {
        law_metadata_lasts(start, schema, items, clock, n - 1);
        law_every_state_is_whole(start, schema, items, clock, n - 1);
    }
}

/// Whatever the items of a request, the iterator stays whole, and keeps what the request as a
/// whole has set.
pub proof fn law_every_state_is_whole(
    start: IteratorView,
    schema: SchemaView,
    items: Seq<Option<InputView>>,
    clock: Seq<Timestamp>,
    n: int,
)
    requires
        event_laws::is_whole(start, schema),
    ensures
        ({
            let iter = events::progress(start, schema, items, clock, n).iter;
            &&& event_laws::is_whole(iter, schema)
            &&& iter.channel == start.channel
            &&& iter.batch == start.batch
            &&& iter.token == start.token
            &&& iter.log_namespace == start.log_namespace
            &&& iter.auto_forward_metadata == start.auto_forward_metadata
            &&& iter.fix_bare_string_events == start.fix_bare_string_events
            &&& iter.auto_extract_timestamp == start.auto_extract_timestamp
        }),
    decreases n,
{
    if n > 0 {
        law_every_state_is_whole(start, schema, items, clock, n - 1);
    }
}

/// Every event of a request carries its token, where it is kept, and none otherwise.
pub proof fn law_every_event_carries_the_token(
    start: IteratorView,
    schema: SchemaView,
    items: Seq<Option<InputView>>,
    clock: Seq<Timestamp>,
    i: int,
)
    requires
        event_laws::is_whole(start, schema),
        0 <= i < events::outcome(start, schema, items, clock).0.len(),
    ensures
        events::outcome(start, schema, items, clock).0[i].hec_token == start.token,
        events::outcome(start, schema, items, clock).0[i].notify == start.batch,
{
    law_events_come_in_order(start, schema, items, clock, i);
    law_every_state_is_whole(start, schema, items, clock, i);
    event_laws::law_events_carry_the_token(
        events::progress(start, schema, items, clock, i).iter,
        schema,
        items[i]->0.json,
        items[i]->0.time,
        clock[i],
    );
}

/// Every event of a request that is no object is kept whole, whatever metadata comes with it and
/// with the events before it.
pub proof fn law_every_scalar_event_is_preserved(
    start: IteratorView,
    schema: SchemaView,
    items: Seq<Option<InputView>>,
    clock: Seq<Timestamp>,
    i: int,
    name: Seq<char>,
)
    requires
        event_laws::is_whole(start, schema),
        0 <= i < events::outcome(start, schema, items, clock).0.len(),
        !(json::field(items[i]->0.json, "event"@)->0 is Object),
        match start.log_namespace {
            LogNamespace::Vector => start.fix_bare_string_events && name == "message"@,
            LogNamespace::Legacy => schema.message_key == Some(seq![name]),
        },
        event_laws::is_free(
            events::progress(start, schema, items, clock, i).iter,
            schema,
            items[i]->0.json,
            clock[i],
            name,
        ),
    ensures
        value::field(events::outcome(start, schema, items, clock).0[i].value, name) == Some(
            value::json_value(json::field(items[i]->0.json, "event"@)->0),
        ),
{
    law_events_come_in_order(start, schema, items, clock, i);
    law_every_state_is_whole(start, schema, items, clock, i);
    event_laws::law_scalar_events_are_preserved(
        events::progress(start, schema, items, clock, i).iter,
        schema,
        items[i]->0.json,
        items[i]->0.time,
        clock[i],
        name,
    );
}

/// Every field of every event of a request that is an object is kept at the root of the event,
/// whatever metadata comes with it and with the events before it, but for `line` in the Legacy
/// namespace.
pub proof fn law_every_object_field_is_preserved(
    start: IteratorView,
    schema: SchemaView,
    items: Seq<Option<InputView>>,
    clock: Seq<Timestamp>,
    i: int,
    name: Seq<char>,
)
    requires
        event_laws::is_whole(start, schema),
        0 <= i < events::outcome(start, schema, items, clock).0.len(),
        json::field(items[i]->0.json, "event"@)->0 is Object,
        value::json_fields(
            json::field(items[i]->0.json, "event"@)->0->Object_0,
        ).dom().contains(name),
        start.log_namespace is Legacy ==> name != "line"@,
        event_laws::is_free(
            events::progress(start, schema, items, clock, i).iter,
            schema,
            items[i]->0.json,
            clock[i],
            name,
        ),
    ensures
        value::field(events::outcome(start, schema, items, clock).0[i].value, name) == Some(
            value::json_fields(json::field(items[i]->0.json, "event"@)->0->Object_0)[name],
        ),
{
    law_events_come_in_order(start, schema, items, clock, i);
    law_every_state_is_whole(start, schema, items, clock, i);
    event_laws::law_object_fields_are_preserved(
        events::progress(start, schema, items, clock, i).iter,
        schema,
        items[i]->0.json,
        items[i]->0.time,
        clock[i],
        name,
    );
}

/// Every event of a request has the index, the source and the source type that it gives or, where
/// it gives none, that the last event before it gave.
pub proof fn law_every_event_has_the_last_metadata(
    start: IteratorView,
    schema: SchemaView,
    items: Seq<Option<InputView>>,
    clock: Seq<Timestamp>,
    i: int,
)
    requires
        event_laws::is_whole(start, schema),
        0 <= i < events::outcome(start, schema, items, clock).0.len(),
    ensures
        ({
            let log = events::outcome(start, schema, items, clock).0[i];
            let namespace = start.log_namespace;
            let index = last_given(items, i + 1, "index"@, start.index.value);
            let source = last_given(items, i + 1, "source"@, start.source.value);
            let sourcetype = last_given(items, i + 1, "sourcetype"@, start.sourcetype.value);
            &&& index is Some ==> event_laws::metadata_named(namespace, log, INDEX@) == index
            &&& source is Some ==> event_laws::metadata_named(namespace, log, SOURCE@) == source
            &&& sourcetype is Some ==> event_laws::metadata_named(namespace, log, SOURCETYPE@)
                == sourcetype
        }),
{
    law_events_come_in_order(start, schema, items, clock, i);
    law_every_state_is_whole(start, schema, items, clock, i);
    law_metadata_lasts(start, schema, items, clock, i);
    event_laws::law_metadata_is_extracted(
        events::progress(start, schema, items, clock, i).iter,
        schema,
        items[i]->0.json,
        items[i]->0.time,
        clock[i],
    );
}

/// Every event of a request has the time that it was given or, where it was given none, that the
/// last event before it was given, else the time of the request.
pub proof fn law_every_event_has_the_last_time(
    start: IteratorView,
    schema: SchemaView,
    items: Seq<Option<InputView>>,
    clock: Seq<Timestamp>,
    i: int,
    name: Seq<char>,
)
    requires
        event_laws::is_whole(start, schema),
        0 <= i < events::outcome(start, schema, items, clock).0.len(),
        match start.log_namespace {
            LogNamespace::Legacy => schema.timestamp_key == Some(seq![name])
                && event_laws::is_free_after_time(
                events::progress(start, schema, items, clock, i).iter,
                items[i]->0.json,
                name,
            ),
            LogNamespace::Vector => name == "timestamp"@ && event_laws::unextracted(
                events::progress(start, schema, items, clock, i + 1).iter,
                name,
            ),
        },
    ensures
        event_laws::metadata_named(
            start.log_namespace,
            events::outcome(start, schema, items, clock).0[i],
            name,
        ) == Some(
            ValueView::Timestamp(event_time::moment(last_time(items, i + 1, start.time))),
        ),
{
    law_events_come_in_order(start, schema, items, clock, i);
    law_every_state_is_whole(start, schema, items, clock, i);
    law_metadata_lasts(start, schema, items, clock, i);
    event_laws::law_events_have_a_time(
        events::progress(start, schema, items, clock, i).iter,
        schema,
        items[i]->0.json,
        items[i]->0.time,
        clock[i],
        name,
    );
}

/// Every event of a request that gives a time has that time, whatever the times of the events
/// before it; every other has the time of the event before it, and the first the one that stood at
/// the start.
pub proof fn law_every_event_has_the_time_it_gives(
    start: IteratorView,
    items: Seq<Option<InputView>>,
    clock: Seq<Timestamp>,
    i: int,
)
    requires
        event_laws::is_whole(start, log_laws::default_schema()),
        0 <= i < events::outcome(start, log_laws::default_schema(), items, clock).0.len(),
    ensures
        ({
            let logs = events::outcome(start, log_laws::default_schema(), items, clock).0;
            let time = |j: int| log_laws::by_name(start.log_namespace, logs[j], "timestamp"@);
            match items[i]->0.time {
                EventTime::Stamp(n) => time(i) matches Some(ValueView::Timestamp(t))
                    && log_laws::is_named_by(t, n as int),
                EventTime::Instant { secs, nanos } => time(i) == Some(
                    ValueView::Timestamp(Timestamp { secs, nanos }),
                ),
                _ => if i > 0 {
                    time(i) == time(i - 1)
                } else {
                    time(i) == Some(ValueView::Timestamp(log_laws::standing_time(start)))
                },
            }
        }),
{
    let schema = log_laws::default_schema();
    lemma_event_has_time(start, items, clock, i);
    if i > 0 {
        lemma_event_has_time(start, items, clock, i - 1);
        law_events_come_in_order(start, schema, items, clock, i - 1);
        law_events_come_in_order(start, schema, items, clock, i);
        let before = events::progress(start, schema, items, clock, i - 1).iter;
        assert(events::progress(start, schema, items, clock, i).iter == events::iterator_after(
            before,
            items[i - 1]->0.json,
            items[i - 1]->0.time,
        ));
        match items[i - 1]->0.time {
            EventTime::Stamp(n) => log_laws::law_given_times_stand(
                before,
                items[i - 1]->0.json,
                n,
                0,
                0,
            ),
            EventTime::Instant { secs, nanos } => log_laws::law_given_times_stand(
                before,
                items[i - 1]->0.json,
                0,
                secs,
                nanos,
            ),
            _ => log_laws::law_given_times_stand(before, items[i - 1]->0.json, 0, 0, 0),
        }
    }
}

proof fn lemma_event_has_time(
    start: IteratorView,
    items: Seq<Option<InputView>>,
    clock: Seq<Timestamp>,
    i: int,
)
    requires
        event_laws::is_whole(start, log_laws::default_schema()),
        0 <= i < events::outcome(start, log_laws::default_schema(), items, clock).0.len(),
    ensures
        ({
            let schema = log_laws::default_schema();
            let iter = events::progress(start, schema, items, clock, i).iter;
            let log = events::outcome(start, schema, items, clock).0[i];
            let time = log_laws::by_name(start.log_namespace, log, "timestamp"@);
            &&& events::item_error(items[i], 0) is None
            &&& match items[i]->0.time {
                EventTime::Stamp(n) => n <= i64::MAX && (time matches Some(ValueView::Timestamp(t))
                    && log_laws::is_named_by(t, n as int)) && time == Some(
                    ValueView::Timestamp(timestamp::timestamp_of(n as int)->0),
                ),
                EventTime::Instant { secs, nanos } => time == Some(
                    ValueView::Timestamp(Timestamp { secs, nanos }),
                ),
                _ => items[i]->0.time is Absent && time == Some(
                    ValueView::Timestamp(log_laws::standing_time(iter)),
                ),
            }
        }),
{
    let schema = log_laws::default_schema();
    law_events_come_in_order(start, schema, items, clock, i);
    law_every_state_is_whole(start, schema, items, clock, i);
    let iter = events::progress(start, schema, items, clock, i).iter;
    let json = items[i]->0.json;
    match items[i]->0.time {
        EventTime::Stamp(n) => {
            log_laws::law_events_have_the_time_they_give(iter, json, clock[i], n, 0, 0);
            log_laws::lemma_time_is_by_name(iter, json, EventTime::Stamp(n), clock[i]);
            log_laws::law_whole_numbers_name_points_in_time(n as int);
        },
        EventTime::Instant { secs, nanos } => {
            log_laws::law_events_have_the_time_they_give(iter, json, clock[i], 0, secs, nanos);
        },
        _ => {
            log_laws::law_events_have_the_time_they_give(iter, json, clock[i], 0, 0, 0);
        },
    }
}

/// Every text that a request sends as an event is the message of its log, character for character.
pub proof fn law_every_text_event_is_its_message(
    start: IteratorView,
    items: Seq<Option<InputView>>,
    clock: Seq<Timestamp>,
    i: int,
    s: Seq<char>,
)
    requires
        event_laws::is_whole(start, log_laws::default_schema()),
        0 <= i < events::outcome(start, log_laws::default_schema(), items, clock).0.len(),
        json::field(items[i]->0.json, "event"@) == Some(JsonView::Text(s)),
        match start.log_namespace {
            LogNamespace::Legacy => log_laws::not_in_fields(items[i]->0.json, "message"@),
            LogNamespace::Vector => start.fix_bare_string_events,
        },
    ensures
        value::field(
            events::outcome(start, log_laws::default_schema(), items, clock).0[i].value,
            "message"@,
        ) == Some(ValueView::Bytes(encode_utf8(s))),
{
    let schema = log_laws::default_schema();
    law_events_come_in_order(start, schema, items, clock, i);
    law_every_state_is_whole(start, schema, items, clock, i);
    log_laws::law_blank_events_are_refused(items[i]->0.json, 0);
    log_laws::law_text_events_are_the_message(
        events::progress(start, schema, items, clock, i).iter,
        items[i]->0.json,
        items[i]->0.time,
        clock[i],
        s,
    );
}

/// Every field of every object that a request sends as an event is in its log, as it is, but for
/// the names that metadata goes by, and `line` in the Legacy namespace.
pub proof fn law_every_object_event_keeps_its_fields(
    start: IteratorView,
    items: Seq<Option<InputView>>,
    clock: Seq<Timestamp>,
    i: int,
    entries: Seq<(Seq<char>, JsonView)>,
    name: Seq<char>,
    k: int,
)
    requires
        event_laws::is_whole(start, log_laws::default_schema()),
        0 <= i < events::outcome(start, log_laws::default_schema(), items, clock).0.len(),
        json::field(items[i]->0.json, "event"@) == Some(JsonView::Object(entries)),
        value_laws::is_first_named(entries, name, k),
        log_laws::is_plain(name),
        start.log_namespace is Legacy ==> log_laws::not_in_fields(items[i]->0.json, name) && name
            != "line"@,
    ensures
        value::field(
            events::outcome(start, log_laws::default_schema(), items, clock).0[i].value,
            name,
        ) == Some(value::json_value(entries[k].1)),
{
    let schema = log_laws::default_schema();
    law_events_come_in_order(start, schema, items, clock, i);
    law_every_state_is_whole(start, schema, items, clock, i);
    log_laws::law_object_events_keep_their_fields(
        events::progress(start, schema, items, clock, i).iter,
        items[i]->0.json,
        items[i]->0.time,
        clock[i],
        entries,
        name,
        k,
    );
}

/// Where nothing is wrong with any item, and there is one, the request is answered with success
/// once its events are taken over.
pub proof fn law_fine_requests_succeed(
    start: IteratorView,
    schema: SchemaView,
    items: Seq<Option<InputView>>,
    clock: Seq<Timestamp>,
    ack_id: Option<u64>,
)
    requires
        !start.done,
        start.events == 0,
        0 < items.len() <= usize::MAX,
        events::all_fine(items, items.len() as int),
    ensures
        exchange::event_reply(
            events::outcome(start, schema, items, clock).1,
            Delivery::Accepted,
            ack_id,
        ) == response::ok_reply(ack_id),
{
    law_fine_requests_are_taken_whole(start, schema, items, clock);
}

/// Where something is wrong with an item, the request is answered with what is wrong with the
/// first such item, and its number, though the events before it are taken over.
pub proof fn law_refused_items_are_answered_with_their_number(
    start: IteratorView,
    schema: SchemaView,
    items: Seq<Option<InputView>>,
    clock: Seq<Timestamp>,
    k: int,
    ack_id: Option<u64>,
)
    requires
        !start.done,
        start.events == 0,
        items.len() <= usize::MAX,
        0 <= k < items.len(),
        events::all_fine(items, k),
        events::item_error(items[k], 0) is Some,
    ensures
        exchange::event_reply(
            events::outcome(start, schema, items, clock).1,
            Delivery::Accepted,
            ack_id,
        ) == response::error_reply(events::item_error(items[k], k as usize)->0),
        response::error_reply(
            events::item_error(items[k], k as usize)->0,
        ).body matches BodyView::Outcome(told) && told.metadata == Some(
            HecResponseMetadata::InvalidEventNumber(k as usize),
        ),
{
    law_first_error_ends_the_request(start, schema, items, clock, k);
}

/// A channel is asked of a request to the event endpoint only where ids are given, and then it is
/// the first thing asked after credentials and encoding.
pub proof fn law_ids_need_a_channel(source: SplunkSource, request: EventRequest)
    ensures
        exchange::event_refusal(source, request) == Some(ApiError::MissingChannel)
            ==> source.acknowledgements,
        source.acknowledgements && exchange::event_channel(request) is None
            ==> exchange::event_refusal(source, request) is Some,
        source.acknowledgements && exchange::event_channel(request) is None
            && exchange::event_verdict(source, request) is Ok && source::gzip_asked(
            text::text_of(request.encoding),
        ) is Ok ==> exchange::event_refusal(source, request) == Some(ApiError::MissingChannel),
{
}

/// A request is answered with success exactly if nothing was wrong with it and its events were
/// taken over; and only then with an id.
pub proof fn law_success_means_all_is_well(
    error: Option<ApiError>,
    delivery: Delivery,
    ack_id: Option<u64>,
)
    ensures
        exchange::event_reply(error, delivery, ack_id).status == 200 <==> error is None && delivery
            == Delivery::Accepted,
        exchange::event_reply(error, delivery, ack_id).status == 200 ==> exchange::event_reply(
            error,
            delivery,
            ack_id,
        ) == response::ok_reply(ack_id),
{
    if error is Some {
        response::law_only_accepted_requests_succeed(error->0, ack_id);
    }
    response::law_only_accepted_requests_succeed(ApiError::ServerShutdown, ack_id);
}

} // verus!
