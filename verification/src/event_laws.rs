//! What holds of every event that a JSON value becomes.
use vstd::prelude::*;

use crate::event_time;
use crate::event_time::EventTime;
use crate::events;
use crate::events::{
    GeneratorView, IteratorView, CHANNEL, INDEX, SOURCE, SOURCETYPE,
};
use crate::extractor;
use crate::extractor::ExtractorView;
use crate::json;
use crate::json::JsonView;
use crate::log_event;
use crate::log_event::{LegacyKeyView, LogNamespace, LogView, SchemaView};
use crate::timestamp::Timestamp;
use crate::value;
use crate::value::ValueView;

verus! {

/// What is put at a path stands there.
pub proof fn law_what_is_put_stands_there(v: ValueView, path: Seq<Seq<char>>, x: ValueView)
    ensures
        value::at(value::put(v, path, x), path) == Some(x),
    decreases path.len(),
{
    if path.len() > 0 {
        let inner = match value::field(v, path[0]) {
            Some(inner) => inner,
            None => ValueView::Null,
        };
        law_what_is_put_stands_there(inner, path.skip(1), x);
    }
}

/// What is put at a path leaves the other fields at the root as they were.
pub proof fn law_what_is_put_leaves_other_fields(
    v: ValueView,
    path: Seq<Seq<char>>,
    x: ValueView,
    name: Seq<char>,
)
    requires
        path.len() > 0,
        path[0] != name,
    ensures
        value::field(value::put(v, path, x), name) == value::field(v, name),
{
}

/// Whether a path of the schema leaves a field at the root alone.
pub open spec fn clear_of(key: Option<Seq<Seq<char>>>, name: Seq<char>) -> bool {
    match key {
        Some(path) => path.len() > 0 && path[0] != name,
        None => true,
    }
}

/// Whether a field at the root of an event stays as it is when something is put at a path only
/// where nothing stands: something does, or the path leads elsewhere.
pub open spec fn spared_if_empty(
    key: Option<Seq<Seq<char>>>,
    event: ValueView,
    name: Seq<char>,
) -> bool {
    match key {
        Some(path) => value::at(event, path) is Some || (path.len() > 0 && path[0] != name),
        None => true,
    }
}

/// Whether a field at the root of an event stays as it is when something is put there by a legacy
/// key.
pub open spec fn spared(key: Option<LegacyKeyView>, event: ValueView, name: Seq<char>) -> bool {
    match key {
        Some(LegacyKeyView::Overwrite(path)) => clear_of(Some(path), name),
        Some(LegacyKeyView::InsertIfEmpty(path)) => spared_if_empty(Some(path), event, name),
        None => true,
    }
}

/// A piece of metadata of this source leaves the fields alone that its legacy key spares.
pub proof fn lemma_source_noted_keeps(
    namespace: LogNamespace,
    log: LogView,
    key: Option<LegacyKeyView>,
    path: Seq<Seq<char>>,
    v: ValueView,
    name: Seq<char>,
)
    requires
        namespace is Legacy ==> spared(key, log.value, name),
    ensures
        value::field(log_event::source_noted(namespace, log, key, path, v).value, name)
            == value::field(log.value, name),
{
    match (namespace, key) {
        (LogNamespace::Legacy, Some(LegacyKeyView::Overwrite(p))) => {
            law_what_is_put_leaves_other_fields(log.value, p, v, name);
        },
        (LogNamespace::Legacy, Some(LegacyKeyView::InsertIfEmpty(p))) => {
            if value::at(log.value, p) is None {
                law_what_is_put_leaves_other_fields(log.value, p, v, name);
            }
        },
        _ => {},
    }
}

/// A piece of metadata that logs of all sources have leaves the fields alone that its key spares.
pub proof fn lemma_vector_noted_keeps(
    namespace: LogNamespace,
    log: LogView,
    key: Option<Seq<Seq<char>>>,
    path: Seq<Seq<char>>,
    v: ValueView,
    name: Seq<char>,
)
    requires
        namespace is Legacy ==> spared_if_empty(key, log.value, name),
    ensures
        value::field(log_event::vector_noted(namespace, log, key, path, v).value, name)
            == value::field(log.value, name),
{
    match (namespace, key) {
        (LogNamespace::Legacy, Some(p)) => {
            if value::at(log.value, p) is None {
                law_what_is_put_leaves_other_fields(log.value, p, v, name);
            }
        },
        _ => {},
    }
}

/// Whether an iterator is as it starts out, but for what its events have changed: each extractor
/// has its field, its path and the namespace of the whole.
pub open spec fn is_whole(iter: IteratorView, schema: SchemaView) -> bool {
    &&& is_extractor(iter.host, "host"@, schema.host_key, iter.log_namespace)
    &&& is_extractor(iter.index, "index"@, Some(seq![INDEX@]), iter.log_namespace)
    &&& is_extractor(iter.source, "source"@, Some(seq![SOURCE@]), iter.log_namespace)
    &&& is_extractor(iter.sourcetype, "sourcetype"@, Some(seq![SOURCETYPE@]), iter.log_namespace)
}

/// Whether an extractor has this field, path and namespace.
pub open spec fn is_extractor(
    e: ExtractorView,
    field: Seq<char>,
    to_field: Option<Seq<Seq<char>>>,
    namespace: LogNamespace,
) -> bool {
    e.field == field && e.to_field == to_field && e.log_namespace == namespace
}

/// An iterator starts out whole, and every event leaves it whole.
pub proof fn law_iterators_stay_whole(
    f: GeneratorView,
    schema: SchemaView,
    now: Timestamp,
    iter: IteratorView,
    json: JsonView,
    time: EventTime,
)
    ensures
        is_whole(events::iterator_start(f, schema, now), schema),
        is_whole(iter, schema) ==> is_whole(events::iterator_after(iter, json, time), schema),
{
}

/// The fields that the `fields` field of a JSON value adds.
pub open spec fn added_fields(json: JsonView) -> Map<Seq<char>, ValueView> {
    match json::field(json, "fields"@) {
        Some(JsonView::Object(entries)) => value::json_fields(entries),
        _ => Map::empty(),
    }
}

proof fn lemma_extracted_keeps(e: ExtractorView, log: LogView, name: Seq<char>)
    requires
        e.log_namespace is Legacy && e.value is Some ==> clear_of(e.to_field, name),
    ensures
        value::field(extractor::extracted(e, log).value, name) == value::field(log.value, name),
{
    match (e.value, e.to_field) {
        (Some(v), Some(key)) => {
            lemma_source_noted_keeps(
                e.log_namespace,
                log,
                Some(LegacyKeyView::Overwrite(key)),
                key,
                v,
                name,
            );
        },
        _ => {},
    }
}

proof fn lemma_forwarded_keeps(
    log: LogView,
    root: Seq<char>,
    v: Option<ValueView>,
    name: Seq<char>,
)
    requires
        v is Some ==> name != root,
    ensures
        value::field(events::forwarded(log, root, v).value, name) == value::field(log.value, name),
{
    match v {
        Some(v) => law_what_is_put_leaves_other_fields(log.value, seq![root], v, name),
        None => {},
    }
}

/// Whether the marks of the request leave a field alone.
pub open spec fn unmarked(iter: IteratorView, name: Seq<char>) -> bool {
    iter.auto_extract_timestamp ==> name != "auto_extract_timestamp"@
}

/// Whether the metadata that an iterator forwards leaves a field alone.
pub open spec fn unforwarded(iter: IteratorView, name: Seq<char>) -> bool {
    iter.auto_forward_metadata ==> {
        &&& iter.index.value is Some ==> name != "index"@
        &&& iter.source.value is Some ==> name != "source"@
        &&& iter.sourcetype.value is Some ==> name != "sourcetype"@
    }
}

/// Whether none of the metadata that an iterator has extracted goes by a name.
pub open spec fn unextracted(iter: IteratorView, name: Seq<char>) -> bool {
    &&& iter.host.value is Some ==> clear_of(iter.host.to_field, name)
    &&& iter.index.value is Some ==> clear_of(iter.index.to_field, name)
    &&& iter.source.value is Some ==> clear_of(iter.source.to_field, name)
    &&& iter.sourcetype.value is Some ==> clear_of(iter.sourcetype.to_field, name)
}

/// The marks of a request leave the fields alone that they do not go to.
pub proof fn lemma_marks_keep(iter: IteratorView, log: LogView, name: Seq<char>)
    requires
        unmarked(iter, name),
    ensures
        value::field(events::with_request_marks(iter, log).value, name) == value::field(
            log.value,
            name,
        ),
{
    if iter.auto_extract_timestamp {
        law_what_is_put_leaves_other_fields(
            log.value,
            seq!["auto_extract_timestamp"@],
            ValueView::Boolean(true),
            name,
        );
    }
}

/// Forwarding leaves the fields alone that it does not go to.
pub proof fn lemma_forwarding_keeps(iter: IteratorView, log: LogView, name: Seq<char>)
    requires
        unforwarded(iter, name),
    ensures
        value::field(events::with_forwarded(iter, log).value, name) == value::field(
            log.value,
            name,
        ),
{
    if iter.auto_forward_metadata {
        let a = events::forwarded(log, "index"@, iter.index.value);
        let b = events::forwarded(a, "source"@, iter.source.value);
        lemma_forwarded_keeps(log, "index"@, iter.index.value, name);
        lemma_forwarded_keeps(a, "source"@, iter.source.value, name);
        lemma_forwarded_keeps(b, "sourcetype"@, iter.sourcetype.value, name);
    }
}

proof fn lemma_extraction_keeps(
    iter: IteratorView,
    schema: SchemaView,
    log: LogView,
    name: Seq<char>,
)
    requires
        is_whole(iter, schema),
        iter.log_namespace is Legacy ==> unextracted(iter, name),
    ensures
        value::field(events::with_extracted(iter, log).value, name) == value::field(
            log.value,
            name,
        ),
{
    let a = extractor::extracted(iter.host, log);
    let b = extractor::extracted(iter.index, a);
    let c = extractor::extracted(iter.source, b);
    lemma_extracted_keeps(iter.host, log, name);
    lemma_extracted_keeps(iter.index, a, name);
    lemma_extracted_keeps(iter.source, b, name);
    lemma_extracted_keeps(iter.sourcetype, c, name);
}

/// The legacy key that overwrites a path, if there is such a path.
pub open spec fn overwrite(key: Option<Seq<Seq<char>>>) -> Option<LegacyKeyView> {
    match key {
        Some(key) => Some(LegacyKeyView::Overwrite(key)),
        None => None,
    }
}

/// The time of a log leaves the fields alone that its path spares.
pub proof fn lemma_time_keeps(
    namespace: LogNamespace,
    schema: SchemaView,
    log: LogView,
    t: Timestamp,
    name: Seq<char>,
)
    requires
        namespace is Legacy ==> clear_of(schema.timestamp_key, name),
    ensures
        value::field(events::with_time(namespace, schema, log, t).value, name) == value::field(
            log.value,
            name,
        ),
{
    lemma_source_noted_keeps(
        namespace,
        log,
        overwrite(schema.timestamp_key),
        seq!["timestamp"@],
        ValueView::Timestamp(t),
        name,
    );
}

/// The channel of the event for a JSON value: the one that it names, else that of the request.
pub open spec fn channel_of(iter: IteratorView, json: JsonView) -> Option<ValueView> {
    match json::field(json, "channel"@) {
        Some(JsonView::Text(s)) => Some(value::text_value(s)),
        _ => iter.channel,
    }
}

/// The log for a JSON value up to its channel.
pub open spec fn log_with_channel(
    iter: IteratorView,
    schema: SchemaView,
    json: JsonView,
    now: Timestamp,
) -> LogView {
    events::with_channel(
        iter,
        json,
        events::with_source_type(
            iter.log_namespace,
            schema,
            events::bare_log(iter, schema, json, now),
        ),
    )
}

/// The log for a JSON value up to its time.
pub open spec fn log_with_time(
    iter: IteratorView,
    schema: SchemaView,
    json: JsonView,
    time: EventTime,
    now: Timestamp,
) -> LogView {
    events::with_time(
        iter.log_namespace,
        schema,
        events::with_fields(
            iter.log_namespace,
            json,
            log_with_channel(iter, schema, json, now),
        ),
        event_time::moment(event_time::time_after(iter.time, time)),
    )
}

/// Whether nothing that comes after the time goes to a field at the root of the event for a JSON
/// value.
pub open spec fn is_free_after_time(
    iter: IteratorView,
    json: JsonView,
    name: Seq<char>,
) -> bool {
    let after = events::iterator_after(iter, json, EventTime::Absent);
    &&& iter.log_namespace is Legacy ==> unextracted(after, name)
    &&& unforwarded(after, name)
    &&& unmarked(iter, name)
}

proof fn lemma_kept_after_time(
    iter: IteratorView,
    schema: SchemaView,
    json: JsonView,
    time: EventTime,
    now: Timestamp,
    name: Seq<char>,
)
    requires
        is_whole(iter, schema),
        is_free_after_time(iter, json, name),
    ensures
        value::field(events::built_log(iter, schema, json, time, now).value, name) == value::field(
            log_with_time(iter, schema, json, time, now).value,
            name,
        ),
{
    let after = events::iterator_after(iter, json, time);
    let timed = log_with_time(iter, schema, json, time, now);
    let filled = events::with_extracted(after, timed);
    lemma_extraction_keeps(after, schema, timed, name);
    lemma_forwarding_keeps(after, filled, name);
    lemma_marks_keep(iter, events::with_forwarded(after, filled), name);
}

/// Whether nothing that comes after the channel goes to a field.
pub open spec fn is_free_after_channel(
    iter: IteratorView,
    schema: SchemaView,
    json: JsonView,
    name: Seq<char>,
) -> bool {
    &&& is_free_after_time(iter, json, name)
    &&& iter.log_namespace is Legacy ==> clear_of(schema.timestamp_key, name) && !added_fields(
        json,
    ).dom().contains(name)
}

/// What comes after the channel leaves the fields alone that it does not go to.
pub proof fn lemma_kept_after_channel(
    iter: IteratorView,
    schema: SchemaView,
    json: JsonView,
    time: EventTime,
    now: Timestamp,
    name: Seq<char>,
)
    requires
        is_whole(iter, schema),
        is_free_after_channel(iter, schema, json, name),
    ensures
        value::field(events::built_log(iter, schema, json, time, now).value, name) == value::field(
            log_with_channel(iter, schema, json, now).value,
            name,
        ),
{
    let log = log_with_channel(iter, schema, json, now);
    let with_fields = events::with_fields(iter.log_namespace, json, log);
    assert(value::field(with_fields.value, name) == value::field(log.value, name));
    lemma_time_keeps(
        iter.log_namespace,
        schema,
        with_fields,
        event_time::moment(event_time::time_after(iter.time, time)),
        name,
    );
    lemma_kept_after_time(iter, schema, json, time, now, name);
}

/// Whether no metadata goes to a field at the root of the event for a JSON value.
pub open spec fn is_free(
    iter: IteratorView,
    schema: SchemaView,
    json: JsonView,
    now: Timestamp,
    name: Seq<char>,
) -> bool {
    &&& is_free_after_channel(iter, schema, json, name)
    &&& iter.log_namespace is Legacy ==> {
        &&& spared_if_empty(
            schema.source_type_key,
            events::bare_log(iter, schema, json, now).value,
            name,
        )
        &&& channel_of(iter, json) is Some ==> name != CHANNEL@
    }
}

/// The fields of an event that no metadata goes to stay as they were: metadata destroys nothing.
pub proof fn law_metadata_leaves_other_fields(
    iter: IteratorView,
    schema: SchemaView,
    json: JsonView,
    time: EventTime,
    now: Timestamp,
    name: Seq<char>,
)
    requires
        is_whole(iter, schema),
        is_free(iter, schema, json, now, name),
    ensures
        value::field(events::built_log(iter, schema, json, time, now).value, name) == value::field(
            events::bare_log(iter, schema, json, now).value,
            name,
        ),
{
    let namespace = iter.log_namespace;
    let bare = events::bare_log(iter, schema, json, now);
    let typed = events::with_source_type(namespace, schema, bare);
    lemma_vector_noted_keeps(
        namespace,
        bare,
        schema.source_type_key,
        seq!["source_type"@],
        value::text_value(log_event::NAME@),
        name,
    );
    match channel_of(iter, json) {
        Some(v) => {
            lemma_source_noted_keeps(
                namespace,
                typed,
                Some(LegacyKeyView::Overwrite(seq![CHANNEL@])),
                seq![CHANNEL@],
                v,
                name,
            );
        },
        None => {},
    }
    lemma_kept_after_channel(iter, schema, json, time, now, name);
}

/// An event that is no object is kept whole, whatever metadata comes with it: in the Legacy
/// namespace as the message, in the Vector namespace under `message` where that is asked for.
pub proof fn law_scalar_events_are_preserved(
    iter: IteratorView,
    schema: SchemaView,
    json: JsonView,
    time: EventTime,
    now: Timestamp,
    name: Seq<char>,
)
    requires
        is_whole(iter, schema),
        events::event_error(json, iter.events) is None,
        !(json::field(json, "event"@)->0 is Object),
        match iter.log_namespace {
            LogNamespace::Vector => iter.fix_bare_string_events && name == "message"@,
            LogNamespace::Legacy => schema.message_key == Some(seq![name]),
        },
        is_free(iter, schema, json, now, name),
    ensures
        value::field(events::built_log(iter, schema, json, time, now).value, name) == Some(
            value::json_value(json::field(json, "event"@)->0),
        ),
{
    let v = value::json_value(json::field(json, "event"@)->0);
    law_metadata_leaves_other_fields(iter, schema, json, time, now, name);
    value::lemma_put_one(log_event::empty_log().value, name, v);
}

/// The fields of an event that is an object are kept at its root, whatever metadata comes with
/// it, but for `line` in the Legacy namespace.
pub proof fn law_object_fields_are_preserved(
    iter: IteratorView,
    schema: SchemaView,
    json: JsonView,
    time: EventTime,
    now: Timestamp,
    name: Seq<char>,
)
    requires
        is_whole(iter, schema),
        json::field(json, "event"@)->0 is Object,
        value::json_fields(json::field(json, "event"@)->0->Object_0).dom().contains(name),
        iter.log_namespace is Legacy ==> name != "line"@,
        is_free(iter, schema, json, now, name),
    ensures
        value::field(events::built_log(iter, schema, json, time, now).value, name) == Some(
            value::json_fields(json::field(json, "event"@)->0->Object_0)[name],
        ),
{
    law_metadata_leaves_other_fields(iter, schema, json, time, now, name);
    let fields = value::json_fields(json::field(json, "event"@)->0->Object_0);
    if iter.log_namespace is Legacy {
        assert(fields.remove("line"@).dom().contains(name));
    }
}

/// In the Legacy namespace the `line` of an object is the message, unless it is an array or an
/// object or the object has a field where the message goes.
pub proof fn law_line_is_the_message(
    iter: IteratorView,
    schema: SchemaView,
    json: JsonView,
    time: EventTime,
    now: Timestamp,
    name: Seq<char>,
)
    requires
        is_whole(iter, schema),
        iter.log_namespace is Legacy,
        schema.message_key == Some(seq![name]),
        is_free(iter, schema, json, now, name),
        json::field(json, "event"@)->0 is Object,
        json::lookup(json::field(json, "event"@)->0->Object_0, "line"@) matches Some(line) && !(
        line is Array) && !(line is Object),
        !value::json_fields(json::field(json, "event"@)->0->Object_0).remove(
            "line"@,
        ).dom().contains(name),
    ensures
        value::field(events::built_log(iter, schema, json, time, now).value, name) == Some(
            value::json_value(
                json::lookup(json::field(json, "event"@)->0->Object_0, "line"@)->0,
            ),
        ),
{
    law_metadata_leaves_other_fields(iter, schema, json, time, now, name);
    let line = json::lookup(json::field(json, "event"@)->0->Object_0, "line"@)->0;
    value::lemma_put_one(log_event::empty_log().value, name, value::json_value(line));
}

/// The token that the request keeps, and nothing else, is the token of the event; and its
/// delivery is to be reported exactly if that of the request is.
pub proof fn law_events_carry_the_token(
    iter: IteratorView,
    schema: SchemaView,
    json: JsonView,
    time: EventTime,
    now: Timestamp,
)
    ensures
        events::built_log(iter, schema, json, time, now).hec_token == iter.token,
        events::built_log(iter, schema, json, time, now).notify == iter.batch,
{
    let after = events::iterator_after(iter, json, time);
    let bare = events::bare_log(iter, schema, json, now);
    assert(is_unmarked(bare));
    let typed = events::with_source_type(iter.log_namespace, schema, bare);
    assert(is_unmarked(typed));
    assert(is_unmarked(log_with_channel(iter, schema, json, now)));
    let timed = log_with_time(iter, schema, json, time, now);
    assert(is_unmarked(timed));
    let a = extractor::extracted(after.host, timed);
    let b = extractor::extracted(after.index, a);
    let c = extractor::extracted(after.source, b);
    assert(is_unmarked(a));
    assert(is_unmarked(b));
    assert(is_unmarked(c));
    let filled = events::with_extracted(after, timed);
    assert(is_unmarked(filled));
    assert(is_unmarked(events::with_forwarded(after, filled)));
}

/// Whether a log has no token, and its delivery is not to be reported.
spec fn is_unmarked(log: LogView) -> bool {
    log.hec_token is None && !log.notify
}

proof fn lemma_names()
    ensures
        CHANNEL@ != INDEX@,
        CHANNEL@ != SOURCE@,
        CHANNEL@ != SOURCETYPE@,
        INDEX@ != SOURCE@,
        INDEX@ != SOURCETYPE@,
        SOURCE@ != SOURCETYPE@,
        "index"@ != "source"@,
        "index"@ != "sourcetype"@,
        "source"@ != "sourcetype"@,
        "index"@ != "auto_extract_timestamp"@,
        "source"@ != "auto_extract_timestamp"@,
        "sourcetype"@ != "auto_extract_timestamp"@,
        forall|prefixed: Seq<char>|
            prefixed == CHANNEL@ || prefixed == INDEX@ || prefixed == SOURCE@ || prefixed
                == SOURCETYPE@ ==> #[trigger] is_prefixed(prefixed),
{
    reveal_strlit("splunk_channel");
    reveal_strlit("splunk_index");
    reveal_strlit("splunk_source");
    reveal_strlit("splunk_sourcetype");
    reveal_strlit("index");
    reveal_strlit("source");
    reveal_strlit("sourcetype");
    reveal_strlit("auto_extract_timestamp");
    assert(INDEX@[7] == 'i');
    assert(SOURCE@[7] == 's');
    assert(CHANNEL@[7] == 'c');
    assert("index"@[0] == 'i');
    assert("source"@[0] == 's');
    assert(SOURCE@.len() == 13);
    assert(SOURCETYPE@.len() == 17);
    assert("source"@.len() == 6);
    assert("sourcetype"@.len() == 10);
    assert(CHANNEL@[1] == 'p');
    assert(INDEX@[1] == 'p');
    assert(SOURCE@[1] == 'p');
    assert(SOURCETYPE@[1] == 'p');
    assert("index"@[1] == 'n');
    assert("source"@[1] == 'o');
    assert("sourcetype"@[1] == 'o');
    assert("auto_extract_timestamp"@[1] == 'u');
}

/// Whether a name is none of those that metadata has at the root of an event without a prefix.
spec fn is_prefixed(name: Seq<char>) -> bool {
    name != "index"@ && name != "source"@ && name != "sourcetype"@ && name
        != "auto_extract_timestamp"@
}

/// What stands at a path of two names is a field of a field.
pub proof fn lemma_at_two(v: ValueView, a: Seq<char>, b: Seq<char>)
    ensures
        value::at(v, seq![a, b]) == match value::field(v, a) {
            Some(inner) => value::field(inner, b),
            None => None,
        },
{
    let path = seq![a, b];
    assert(path.skip(1) =~= seq![b]);
    assert(seq![b].skip(1) =~= Seq::empty());
    match value::field(v, a) {
        Some(inner) => {
            assert(value::at(v, path) == value::at(inner, seq![b]));
            match value::field(inner, b) {
                Some(x) => {
                    assert(value::at(inner, seq![b]) == value::at(x, Seq::empty()));
                },
                None => {},
            }
        },
        None => {},
    }
}

proof fn lemma_put_keeps_under(
    v: ValueView,
    outer: Seq<char>,
    path: Seq<Seq<char>>,
    x: ValueView,
    name: Seq<char>,
)
    requires
        path.len() > 0,
        path[0] != name,
    ensures
        value::at(value::put(v, seq![outer] + path, x), seq![outer, name]) == value::at(
            v,
            seq![outer, name],
        ),
{
    let whole = seq![outer] + path;
    assert(whole.skip(1) =~= path);
    lemma_at_two(v, outer, name);
    lemma_at_two(value::put(v, whole, x), outer, name);
    let inner = match value::field(v, outer) {
        Some(inner) => inner,
        None => ValueView::Null,
    };
    law_what_is_put_leaves_other_fields(inner, path, x, name);
}

/// The metadata of this source that goes by a name: in the Legacy namespace at the root of the
/// event, in the Vector namespace beside it.
pub open spec fn metadata_named(
    namespace: LogNamespace,
    log: LogView,
    name: Seq<char>,
) -> Option<ValueView> {
    match namespace {
        LogNamespace::Legacy => value::field(log.value, name),
        LogNamespace::Vector => value::at(log.metadata, seq![log_event::NAME@, name]),
    }
}

/// What is put by a name stands by that name.
pub proof fn lemma_metadata_is_set(
    namespace: LogNamespace,
    log: LogView,
    name: Seq<char>,
    v: ValueView,
)
    ensures
        metadata_named(
            namespace,
            log_event::source_noted(
                namespace,
                log,
                Some(LegacyKeyView::Overwrite(seq![name])),
                seq![name],
                v,
            ),
            name,
        ) == Some(v),
{
    value::lemma_put_one(log.value, name, v);
    let path = seq![log_event::NAME@] + seq![name];
    assert(path =~= seq![log_event::NAME@, name]);
    law_what_is_put_stands_there(log.metadata, path, v);
}

/// What is put by another name leaves what stands by this one.
pub proof fn lemma_metadata_is_kept(
    namespace: LogNamespace,
    log: LogView,
    key: Option<LegacyKeyView>,
    path: Seq<Seq<char>>,
    v: ValueView,
    name: Seq<char>,
)
    requires
        match namespace {
            LogNamespace::Legacy => spared(key, log.value, name),
            LogNamespace::Vector => path.len() > 0 && path[0] != name,
        },
    ensures
        metadata_named(
            namespace,
            log_event::source_noted(namespace, log, key, path, v),
            name,
        ) == metadata_named(namespace, log, name),
{
    match namespace {
        LogNamespace::Legacy => lemma_source_noted_keeps(namespace, log, key, path, v, name),
        LogNamespace::Vector => {
            lemma_put_keeps_under(log.metadata, log_event::NAME@, path, v, name);
        },
    }
}

/// An extractor leaves what stands by a name that is not its own.
pub proof fn lemma_metadata_is_kept_by_extractor(e: ExtractorView, log: LogView, name: Seq<char>)
    requires
        e.value is Some ==> clear_of(e.to_field, name),
    ensures
        metadata_named(e.log_namespace, extractor::extracted(e, log), name) == metadata_named(
            e.log_namespace,
            log,
            name,
        ),
{
    match (e.value, e.to_field) {
        (Some(v), Some(key)) => {
            lemma_metadata_is_kept(
                e.log_namespace,
                log,
                Some(LegacyKeyView::Overwrite(key)),
                key,
                v,
                name,
            );
        },
        _ => {},
    }
}

/// What comes after the extractors leaves what stands by a name.
pub proof fn lemma_metadata_is_kept_to_the_end(
    iter: IteratorView,
    after: IteratorView,
    log: LogView,
    name: Seq<char>,
)
    requires
        after.log_namespace == iter.log_namespace,
        iter.log_namespace is Legacy ==> unforwarded(after, name) && unmarked(iter, name),
    ensures
        metadata_named(
            iter.log_namespace,
            events::with_request_marks(iter, events::with_forwarded(after, log)),
            name,
        ) == metadata_named(iter.log_namespace, log, name),
{
    if iter.log_namespace is Legacy {
        lemma_forwarding_keeps(after, log, name);
        lemma_marks_keep(iter, events::with_forwarded(after, log), name);
    }
}

/// An event has the index, the source and the source type that the extractors hold once they have
/// seen its JSON value, each under its prefixed name.
pub proof fn law_metadata_is_extracted(
    iter: IteratorView,
    schema: SchemaView,
    json: JsonView,
    time: EventTime,
    now: Timestamp,
)
    requires
        is_whole(iter, schema),
    ensures
        ({
            let log = events::built_log(iter, schema, json, time, now);
            let after = events::iterator_after(iter, json, time);
            &&& after.index.value is Some ==> metadata_named(iter.log_namespace, log, INDEX@)
                == after.index.value
            &&& after.source.value is Some ==> metadata_named(iter.log_namespace, log, SOURCE@)
                == after.source.value
            &&& after.sourcetype.value is Some ==> metadata_named(
                iter.log_namespace,
                log,
                SOURCETYPE@,
            ) == after.sourcetype.value
        }),
{
    lemma_names();
    let after = events::iterator_after(iter, json, time);
    let timed = log_with_time(iter, schema, json, time, now);
    let a = extractor::extracted(after.host, timed);
    let b = extractor::extracted(after.index, a);
    let c = extractor::extracted(after.source, b);
    let d = extractor::extracted(after.sourcetype, c);
    assert(is_prefixed(INDEX@) && is_prefixed(SOURCE@) && is_prefixed(SOURCETYPE@));
    if after.index.value is Some {
        lemma_metadata_is_set(iter.log_namespace, a, INDEX@, after.index.value->0);
        lemma_metadata_is_kept_by_extractor(after.source, b, INDEX@);
        lemma_metadata_is_kept_by_extractor(after.sourcetype, c, INDEX@);
        lemma_metadata_is_kept_to_the_end(iter, after, d, INDEX@);
    }
    if after.source.value is Some {
        lemma_metadata_is_set(iter.log_namespace, b, SOURCE@, after.source.value->0);
        lemma_metadata_is_kept_by_extractor(after.sourcetype, c, SOURCE@);
        lemma_metadata_is_kept_to_the_end(iter, after, d, SOURCE@);
    }
    if after.sourcetype.value is Some {
        lemma_metadata_is_set(iter.log_namespace, c, SOURCETYPE@, after.sourcetype.value->0);
        lemma_metadata_is_kept_to_the_end(iter, after, d, SOURCETYPE@);
    }
}

/// Where metadata is forwarded, an event has index, source and source type at its root too,
/// without a prefix.
pub proof fn law_metadata_is_forwarded(
    iter: IteratorView,
    schema: SchemaView,
    json: JsonView,
    time: EventTime,
    now: Timestamp,
)
    requires
        iter.auto_forward_metadata,
    ensures
        ({
            let log = events::built_log(iter, schema, json, time, now);
            let after = events::iterator_after(iter, json, time);
            &&& after.index.value is Some ==> value::field(log.value, "index"@)
                == after.index.value
            &&& after.source.value is Some ==> value::field(log.value, "source"@)
                == after.source.value
            &&& after.sourcetype.value is Some ==> value::field(log.value, "sourcetype"@)
                == after.sourcetype.value
        }),
{
    lemma_names();
    let after = events::iterator_after(iter, json, time);
    let timed = log_with_time(iter, schema, json, time, now);
    let filled = events::with_extracted(after, timed);
    let a = events::forwarded(filled, "index"@, after.index.value);
    let b = events::forwarded(a, "source"@, after.source.value);
    let c = events::forwarded(b, "sourcetype"@, after.sourcetype.value);
    if after.index.value is Some {
        value::lemma_put_one(filled.value, "index"@, after.index.value->0);
        lemma_forwarded_keeps(a, "source"@, after.source.value, "index"@);
        lemma_forwarded_keeps(b, "sourcetype"@, after.sourcetype.value, "index"@);
        lemma_marks_keep(iter, c, "index"@);
    }
    if after.source.value is Some {
        value::lemma_put_one(a.value, "source"@, after.source.value->0);
        lemma_forwarded_keeps(b, "sourcetype"@, after.sourcetype.value, "source"@);
        lemma_marks_keep(iter, c, "source"@);
    }
    if after.sourcetype.value is Some {
        value::lemma_put_one(b.value, "sourcetype"@, after.sourcetype.value->0);
        lemma_marks_keep(iter, c, "sourcetype"@);
    }
}

/// Where time extraction is asked for, an event says so at its root; where it is not, and nothing
/// else puts a field of that name there, it does not.
pub proof fn law_time_extraction_is_marked(
    iter: IteratorView,
    schema: SchemaView,
    json: JsonView,
    time: EventTime,
    now: Timestamp,
)
    ensures
        iter.auto_extract_timestamp ==> value::field(
            events::built_log(iter, schema, json, time, now).value,
            "auto_extract_timestamp"@,
        ) == Some(ValueView::Boolean(true)),
        !iter.auto_extract_timestamp && is_whole(iter, schema) && is_free(
            iter,
            schema,
            json,
            now,
            "auto_extract_timestamp"@,
        ) && value::field(
            events::bare_log(iter, schema, json, now).value,
            "auto_extract_timestamp"@,
        ) is None ==> value::field(
            events::built_log(iter, schema, json, time, now).value,
            "auto_extract_timestamp"@,
        ) is None,
{
    let name = "auto_extract_timestamp"@;
    if iter.auto_extract_timestamp {
        let after = events::iterator_after(iter, json, time);
        let timed = log_with_time(iter, schema, json, time, now);
        let filled = events::with_forwarded(after, events::with_extracted(after, timed));
        value::lemma_put_one(filled.value, name, ValueView::Boolean(true));
    } else if is_whole(iter, schema) && is_free(iter, schema, json, now, name) {
        law_metadata_leaves_other_fields(iter, schema, json, time, now, name);
    }
}

/// An event has the channel that its JSON value names, else that of its request, unless its
/// `fields` or a path of the schema take that place.
pub proof fn law_events_carry_the_channel(
    iter: IteratorView,
    schema: SchemaView,
    json: JsonView,
    time: EventTime,
    now: Timestamp,
)
    requires
        is_whole(iter, schema),
        unextracted(events::iterator_after(iter, json, time), CHANNEL@),
        iter.log_namespace is Legacy ==> clear_of(schema.timestamp_key, CHANNEL@),
        !added_fields(json).dom().contains(CHANNEL@),
        channel_of(iter, json) is Some,
    ensures
        metadata_named(
            iter.log_namespace,
            events::built_log(iter, schema, json, time, now),
            CHANNEL@,
        ) == channel_of(iter, json),
{
    lemma_names();
    assert(is_prefixed(CHANNEL@));
    reveal_strlit("splunk_channel");
    reveal_strlit("timestamp");
    assert(CHANNEL@[0] == 's' && "timestamp"@[0] == 't');
    let namespace = iter.log_namespace;
    let after = events::iterator_after(iter, json, time);
    let typed = events::with_source_type(
        namespace,
        schema,
        events::bare_log(iter, schema, json, now),
    );
    lemma_metadata_is_set(namespace, typed, CHANNEL@, channel_of(iter, json)->0);
    let log = log_with_channel(iter, schema, json, now);
    let with_fields = events::with_fields(namespace, json, log);
    lemma_fields_keep_metadata(namespace, json, log, CHANNEL@);
    lemma_metadata_is_kept(
        namespace,
        with_fields,
        overwrite(schema.timestamp_key),
        seq!["timestamp"@],
        ValueView::Timestamp(event_time::moment(after.time)),
        CHANNEL@,
    );
    let timed = log_with_time(iter, schema, json, time, now);
    let a = extractor::extracted(after.host, timed);
    let b = extractor::extracted(after.index, a);
    let c = extractor::extracted(after.source, b);
    lemma_metadata_is_kept_by_extractor(after.host, timed, CHANNEL@);
    lemma_metadata_is_kept_by_extractor(after.index, a, CHANNEL@);
    lemma_metadata_is_kept_by_extractor(after.source, b, CHANNEL@);
    lemma_metadata_is_kept_by_extractor(after.sourcetype, c, CHANNEL@);
    lemma_metadata_is_kept_to_the_end(
        iter,
        after,
        events::with_extracted(after, timed),
        CHANNEL@,
    );
}

/// The `fields` of a JSON value leave what stands by a name that they do not have.
pub proof fn lemma_fields_keep_metadata(
    namespace: LogNamespace,
    json: JsonView,
    log: LogView,
    name: Seq<char>,
)
    requires
        !added_fields(json).dom().contains(name),
    ensures
        metadata_named(namespace, events::with_fields(namespace, json, log), name)
            == metadata_named(namespace, log, name),
{
    let fields = added_fields(json);
    if namespace is Vector {
        let outer = log_event::NAME@;
        let merged = value::merged_under(log.metadata, outer, fields);
        lemma_at_two(log.metadata, outer, name);
        lemma_at_two(merged, outer, name);
        let inner = match value::field(log.metadata, outer) {
            Some(inner) => inner,
            None => ValueView::Null,
        };
        value::lemma_put_one(log.metadata, outer, value::merged(inner, fields));
    }
}

/// What an added field says, an event has: in the Legacy namespace at its root, in the Vector
/// namespace beside it, unless other metadata takes that place.
pub proof fn law_fields_are_added(
    iter: IteratorView,
    schema: SchemaView,
    json: JsonView,
    time: EventTime,
    now: Timestamp,
    name: Seq<char>,
)
    requires
        is_whole(iter, schema),
        added_fields(json).dom().contains(name),
        unextracted(events::iterator_after(iter, json, time), name),
        match iter.log_namespace {
            LogNamespace::Legacy => {
                &&& clear_of(schema.timestamp_key, name)
                &&& unforwarded(events::iterator_after(iter, json, time), name)
                &&& unmarked(iter, name)
            },
            LogNamespace::Vector => name != "timestamp"@,
        },
    ensures
        metadata_named(
            iter.log_namespace,
            events::built_log(iter, schema, json, time, now),
            name,
        ) == Some(added_fields(json)[name]),
{
    let namespace = iter.log_namespace;
    let after = events::iterator_after(iter, json, time);
    let log = log_with_channel(iter, schema, json, now);
    let with_fields = events::with_fields(namespace, json, log);
    let fields = added_fields(json);
    if namespace is Vector {
        let outer = log_event::NAME@;
        lemma_at_two(with_fields.metadata, outer, name);
        let inner = match value::field(log.metadata, outer) {
            Some(inner) => inner,
            None => ValueView::Null,
        };
        value::lemma_put_one(log.metadata, outer, value::merged(inner, fields));
    }
    assert(metadata_named(namespace, with_fields, name) == Some(fields[name]));
    lemma_metadata_is_kept(
        namespace,
        with_fields,
        overwrite(schema.timestamp_key),
        seq!["timestamp"@],
        ValueView::Timestamp(event_time::moment(after.time)),
        name,
    );
    let timed = log_with_time(iter, schema, json, time, now);
    let a = extractor::extracted(after.host, timed);
    let b = extractor::extracted(after.index, a);
    let c = extractor::extracted(after.source, b);
    lemma_metadata_is_kept_by_extractor(after.host, timed, name);
    lemma_metadata_is_kept_by_extractor(after.index, a, name);
    lemma_metadata_is_kept_by_extractor(after.source, b, name);
    lemma_metadata_is_kept_by_extractor(after.sourcetype, c, name);
    lemma_metadata_is_kept_to_the_end(iter, after, events::with_extracted(after, timed), name);
}

/// An event has its time: the one it was given, else the last one that an event was given, else
/// the backup.
pub proof fn law_events_have_a_time(
    iter: IteratorView,
    schema: SchemaView,
    json: JsonView,
    time: EventTime,
    now: Timestamp,
    name: Seq<char>,
)
    requires
        is_whole(iter, schema),
        match iter.log_namespace {
            LogNamespace::Legacy => schema.timestamp_key == Some(seq![name]) && is_free_after_time(
                iter,
                json,
                name,
            ),
            LogNamespace::Vector => name == "timestamp"@ && unextracted(
                events::iterator_after(iter, json, time),
                name,
            ),
        },
    ensures
        metadata_named(
            iter.log_namespace,
            events::built_log(iter, schema, json, time, now),
            name,
        ) == Some(
            ValueView::Timestamp(event_time::moment(event_time::time_after(iter.time, time))),
        ),
{
    let namespace = iter.log_namespace;
    let after = events::iterator_after(iter, json, time);
    let with_fields = events::with_fields(
        namespace,
        json,
        log_with_channel(iter, schema, json, now),
    );
    let t = ValueView::Timestamp(event_time::moment(after.time));
    let timed = log_with_time(iter, schema, json, time, now);
    match namespace {
        LogNamespace::Legacy => {
            value::lemma_put_one(with_fields.value, name, t);
            lemma_kept_after_time(iter, schema, json, time, now, name);
        },
        LogNamespace::Vector => {
            reveal_strlit("splunk_index");
            reveal_strlit("splunk_source");
            reveal_strlit("splunk_sourcetype");
            reveal_strlit("timestamp");
            assert(INDEX@[0] == 's' && SOURCE@[0] == 's' && SOURCETYPE@[0] == 's');
            assert("timestamp"@[0] == 't');
            let path = seq![log_event::NAME@] + seq![name];
            assert(path =~= seq![log_event::NAME@, name]);
            law_what_is_put_stands_there(with_fields.metadata, path, t);
            let a = extractor::extracted(after.host, timed);
            let b = extractor::extracted(after.index, a);
            let c = extractor::extracted(after.source, b);
            lemma_metadata_is_kept_by_extractor(after.host, timed, name);
            lemma_metadata_is_kept_by_extractor(after.index, a, name);
            lemma_metadata_is_kept_by_extractor(after.source, b, name);
            lemma_metadata_is_kept_by_extractor(after.sourcetype, c, name);
            lemma_metadata_is_kept_to_the_end(
                iter,
                after,
                events::with_extracted(after, timed),
                name,
            );
        },
    }
}

} // verus!
