//! What holds of every request to the raw endpoint.
use vstd::prelude::*;
use vstd::utf8::*;

use crate::encoding;
use crate::event_laws;
use crate::events;
use crate::events::{CHANNEL, INDEX, SOURCE, SOURCETYPE};
use crate::exchange;
use crate::exchange::PendingRawView;
use crate::log_event;
use crate::log_event::{LegacyKeyView, LogNamespace, LogView, SchemaView};
use crate::raw;
use crate::raw::{RawContextView, UrlMetadataView, LINE_FEED};
use crate::text;
use crate::timestamp::Timestamp;
use crate::value;
use crate::value::ValueView;

verus! {

/// Whether a path does not lead to something inside a field at the root. What is put there only
/// where nothing stands leaves that field alone.
pub open spec fn not_inside(key: Option<Seq<Seq<char>>>, name: Seq<char>) -> bool {
    match key {
        Some(path) => path.len() <= 1 || path[0] != name,
        None => true,
    }
}

proof fn lemma_not_inside(key: Option<Seq<Seq<char>>>, event: ValueView, name: Seq<char>)
    requires
        not_inside(key, name),
        value::field(event, name) is Some,
    ensures
        event_laws::spared_if_empty(key, event, name),
{
    match key {
        Some(path) => {
            if path.len() == 1 && path[0] == name {
                assert(path.skip(1) =~= Seq::empty());
                reveal_with_fuel(value::at, 2);
            }
        },
        None => {},
    }
}

/// Whether the metadata that every raw event gets leaves a field at its root alone.
pub open spec fn is_free_of_context(
    context: RawContextView,
    schema: SchemaView,
    name: Seq<char>,
) -> bool {
    context.log_namespace is Legacy ==> {
        &&& name != CHANNEL@
        &&& context.host is Some ==> not_inside(schema.host_key, name)
        &&& not_inside(schema.source_type_key, name)
        &&& not_inside(schema.timestamp_key, name)
    }
}

/// Whether the metadata of the URL leaves a field at the root of an event alone.
pub open spec fn is_free_of_url(
    namespace: LogNamespace,
    schema: SchemaView,
    meta: UrlMetadataView,
    name: Seq<char>,
) -> bool {
    &&& namespace is Legacy ==> {
        &&& meta.host is Some ==> not_inside(schema.host_key, name)
        &&& meta.index is Some ==> name != INDEX@
        &&& meta.sourcetype is Some ==> name != SOURCETYPE@
        &&& meta.source is Some ==> name != SOURCE@
        &&& meta.time is Some ==> event_laws::clear_of(schema.timestamp_key, name)
    }
    &&& meta.auto_forward_metadata ==> {
        &&& meta.host is Some ==> name != "host"@
        &&& meta.index is Some ==> name != "index"@
        &&& meta.sourcetype is Some ==> name != "sourcetype"@
        &&& meta.source is Some ==> name != "source"@
    }
}

proof fn lemma_url_noted_keeps(
    namespace: LogNamespace,
    log: LogView,
    key: Option<LegacyKeyView>,
    root: Seq<char>,
    v: Option<Seq<char>>,
    forward: bool,
    name: Seq<char>,
)
    requires
        v is Some && namespace is Legacy ==> event_laws::spared(key, log.value, name),
        v is Some && forward ==> name != root,
    ensures
        value::field(raw::url_noted(namespace, log, key, root, v, forward).value, name)
            == value::field(log.value, name),
{
    match v {
        Some(s) => {
            let x = value::text_value(s);
            event_laws::lemma_source_noted_keeps(namespace, log, key, seq![root], x, name);
            if forward {
                let noted = log_event::source_noted(namespace, log, key, seq![root], x);
                event_laws::law_what_is_put_leaves_other_fields(noted.value, seq![root], x, name);
            }
        },
        None => {},
    }
}

proof fn lemma_url_metadata_keeps(
    namespace: LogNamespace,
    schema: SchemaView,
    log: LogView,
    meta: UrlMetadataView,
    name: Seq<char>,
)
    requires
        value::field(log.value, name) is Some,
        is_free_of_url(namespace, schema, meta, name),
    ensures
        value::field(raw::with_url_metadata(namespace, schema, log, meta).value, name)
            == value::field(log.value, name),
{
    let forward = meta.auto_forward_metadata;
    let host = raw::if_empty(schema.host_key);
    let index = Some(LegacyKeyView::Overwrite(seq![INDEX@]));
    let sourcetype = Some(LegacyKeyView::Overwrite(seq![SOURCETYPE@]));
    let source = Some(LegacyKeyView::Overwrite(seq![SOURCE@]));
    let a = raw::url_noted(namespace, log, host, "host"@, meta.host, forward);
    let b = raw::url_noted(namespace, a, index, "index"@, meta.index, forward);
    let c = raw::url_noted(namespace, b, sourcetype, "sourcetype"@, meta.sourcetype, forward);
    let d = raw::url_noted(namespace, c, source, "source"@, meta.source, forward);
    if namespace is Legacy && meta.host is Some {
        lemma_not_inside(schema.host_key, log.value, name);
    }
    lemma_url_noted_keeps(namespace, log, host, "host"@, meta.host, forward, name);
    lemma_url_noted_keeps(namespace, a, index, "index"@, meta.index, forward, name);
    lemma_url_noted_keeps(
        namespace,
        b,
        sourcetype,
        "sourcetype"@,
        meta.sourcetype,
        forward,
        name,
    );
    lemma_url_noted_keeps(namespace, c, source, "source"@, meta.source, forward, name);
    let e = match meta.token {
        Some(token) => LogView { hec_token: Some(token), ..d },
        None => d,
    };
    match meta.time {
        Some(t) => event_laws::lemma_time_keeps(namespace, schema, e, t, name),
        None => {},
    }
}

proof fn lemma_context_keeps(
    context: RawContextView,
    schema: SchemaView,
    message: Seq<u8>,
    now: Timestamp,
    name: Seq<char>,
)
    requires
        value::field(raw::message_log(context, schema, message).value, name) is Some,
        is_free_of_context(context, schema, name),
    ensures
        value::field(raw::raw_log(context, schema, message, now).value, name) == value::field(
            raw::message_log(context, schema, message).value,
            name,
        ),
{
    let namespace = context.log_namespace;
    let bare = raw::message_log(context, schema, message);
    let channel = value::text_value(context.channel);
    let key = Some(LegacyKeyView::Overwrite(seq![CHANNEL@]));
    event_laws::lemma_source_noted_keeps(namespace, bare, key, seq![CHANNEL@], channel, name);
    let a = log_event::source_noted(namespace, bare, key, seq![CHANNEL@], channel);
    match context.host {
        Some(host) => {
            if namespace is Legacy {
                lemma_not_inside(schema.host_key, a.value, name);
            }
            event_laws::lemma_source_noted_keeps(
                namespace,
                a,
                raw::if_empty(schema.host_key),
                seq!["host"@],
                value::text_value(host),
                name,
            );
        },
        None => {},
    }
    let b = raw::with_host(namespace, schema, a, context.host);
    let kind = value::text_value(log_event::NAME@);
    let typed = log_event::vector_noted(
        namespace,
        b,
        schema.source_type_key,
        seq!["source_type"@],
        kind,
    );
    if namespace is Legacy {
        lemma_not_inside(schema.source_type_key, b.value, name);
    }
    event_laws::lemma_vector_noted_keeps(
        namespace,
        b,
        schema.source_type_key,
        seq!["source_type"@],
        kind,
        name,
    );
    if namespace is Legacy {
        lemma_not_inside(schema.timestamp_key, typed.value, name);
    }
    event_laws::lemma_vector_noted_keeps(
        namespace,
        typed,
        schema.timestamp_key,
        seq!["ingest_timestamp"@],
        ValueView::Timestamp(now),
        name,
    );
}

/// The message of a raw event is kept whole, whatever metadata the URL adds: in the Legacy
/// namespace as the message, in the Vector namespace under `message` where that is asked for.
pub proof fn law_raw_messages_are_preserved(
    pending: PendingRawView,
    schema: SchemaView,
    clock: Seq<Timestamp>,
    i: int,
    name: Seq<char>,
)
    requires
        0 <= i < exchange::raw_messages(pending).len(),
        match pending.context.log_namespace {
            LogNamespace::Vector => pending.context.fix_bare_string_events && name == "message"@,
            LogNamespace::Legacy => schema.message_key == Some(seq![name]),
        },
        is_free_of_context(pending.context, schema, name),
        is_free_of_url(pending.context.log_namespace, schema, pending.metadata, name),
    ensures
        value::field(exchange::raw_outcome(pending, schema, clock)[i].value, name) == Some(
            ValueView::Bytes(exchange::raw_messages(pending)[i]),
        ),
{
    let message = exchange::raw_messages(pending)[i];
    let log = raw::raw_log(pending.context, schema, message, clock[i]);
    assert(raw::raw_logs(
        pending.context,
        schema,
        exchange::raw_messages(pending),
        clock,
    )[i] == log);
    value::lemma_put_one(log_event::empty_log().value, name, ValueView::Bytes(message));
    lemma_context_keeps(pending.context, schema, message, clock[i], name);
    lemma_url_metadata_keeps(
        pending.context.log_namespace,
        schema,
        log,
        pending.metadata,
        name,
    );
}

/// Where metadata is forwarded, every event of a raw request has the index, the source type, the
/// source and the host of the URL at its root.
pub proof fn law_every_raw_event_has_the_url_metadata(
    pending: PendingRawView,
    schema: SchemaView,
    clock: Seq<Timestamp>,
    i: int,
)
    requires
        0 <= i < exchange::raw_messages(pending).len(),
        pending.metadata.auto_forward_metadata,
        pending.context.log_namespace is Legacy && pending.metadata.time is Some ==> {
            &&& event_laws::clear_of(schema.timestamp_key, "host"@)
            &&& event_laws::clear_of(schema.timestamp_key, "index"@)
            &&& event_laws::clear_of(schema.timestamp_key, "sourcetype"@)
            &&& event_laws::clear_of(schema.timestamp_key, "source"@)
        },
    ensures
        ({
            let log = exchange::raw_outcome(pending, schema, clock)[i];
            let meta = pending.metadata;
            &&& meta.host matches Some(s) ==> value::field(log.value, "host"@) == Some(
                value::text_value(s),
            )
            &&& meta.index matches Some(s) ==> value::field(log.value, "index"@) == Some(
                value::text_value(s),
            )
            &&& meta.sourcetype matches Some(s) ==> value::field(log.value, "sourcetype"@) == Some(
                value::text_value(s),
            )
            &&& meta.source matches Some(s) ==> value::field(log.value, "source"@) == Some(
                value::text_value(s),
            )
        }),
{
    let namespace = pending.context.log_namespace;
    let meta = pending.metadata;
    let log = raw::raw_log(
        pending.context,
        schema,
        exchange::raw_messages(pending)[i],
        clock[i],
    );
    assert(raw::raw_logs(
        pending.context,
        schema,
        exchange::raw_messages(pending),
        clock,
    )[i] == log);
    let host = raw::if_empty(schema.host_key);
    let index = Some(LegacyKeyView::Overwrite(seq![INDEX@]));
    let sourcetype = Some(LegacyKeyView::Overwrite(seq![SOURCETYPE@]));
    let source = Some(LegacyKeyView::Overwrite(seq![SOURCE@]));
    let a = raw::url_noted(namespace, log, host, "host"@, meta.host, true);
    let b = raw::url_noted(namespace, a, index, "index"@, meta.index, true);
    let c = raw::url_noted(namespace, b, sourcetype, "sourcetype"@, meta.sourcetype, true);
    let d = raw::url_noted(namespace, c, source, "source"@, meta.source, true);
    let e = match meta.token {
        Some(token) => LogView { hec_token: Some(token), ..d },
        None => d,
    };
    lemma_url_names();
    lemma_url_noted_sets(namespace, log, host, "host"@, meta.host);
    lemma_url_noted_sets(namespace, a, index, "index"@, meta.index);
    lemma_url_noted_sets(namespace, b, sourcetype, "sourcetype"@, meta.sourcetype);
    lemma_url_noted_sets(namespace, c, source, "source"@, meta.source);
    lemma_url_noted_keeps(namespace, a, index, "index"@, meta.index, true, "host"@);
    lemma_url_noted_keeps(namespace, b, sourcetype, "sourcetype"@, meta.sourcetype, true, "host"@);
    lemma_url_noted_keeps(namespace, c, source, "source"@, meta.source, true, "host"@);
    lemma_url_noted_keeps(
        namespace,
        b,
        sourcetype,
        "sourcetype"@,
        meta.sourcetype,
        true,
        "index"@,
    );
    lemma_url_noted_keeps(namespace, c, source, "source"@, meta.source, true, "index"@);
    lemma_url_noted_keeps(namespace, c, source, "source"@, meta.source, true, "sourcetype"@);
    match meta.time {
        Some(t) => {
            event_laws::lemma_time_keeps(namespace, schema, e, t, "host"@);
            event_laws::lemma_time_keeps(namespace, schema, e, t, "index"@);
            event_laws::lemma_time_keeps(namespace, schema, e, t, "sourcetype"@);
            event_laws::lemma_time_keeps(namespace, schema, e, t, "source"@);
        },
        None => {},
    }
}

proof fn lemma_url_noted_sets(
    namespace: LogNamespace,
    log: LogView,
    key: Option<LegacyKeyView>,
    root: Seq<char>,
    v: Option<Seq<char>>,
)
    ensures
        v matches Some(s) ==> value::field(
            raw::url_noted(namespace, log, key, root, v, true).value,
            root,
        ) == Some(value::text_value(s)),
{
    match v {
        Some(s) => {
            let x = value::text_value(s);
            let noted = log_event::source_noted(namespace, log, key, seq![root], x);
            value::lemma_put_one(noted.value, root, x);
        },
        None => {},
    }
}

/// Whether a name is none of those that metadata has with a prefix.
spec fn is_unprefixed(name: Seq<char>) -> bool {
    name != INDEX@ && name != SOURCETYPE@ && name != SOURCE@
}

proof fn lemma_url_names()
    ensures
        "host"@ != "index"@,
        "host"@ != "sourcetype"@,
        "host"@ != "source"@,
        "index"@ != "sourcetype"@,
        "index"@ != "source"@,
        "sourcetype"@ != "source"@,
        is_unprefixed("host"@),
        is_unprefixed("index"@),
        is_unprefixed("sourcetype"@),
        is_unprefixed("source"@),
{
    reveal_strlit("host");
    reveal_strlit("index");
    reveal_strlit("sourcetype");
    reveal_strlit("source");
    reveal_strlit("splunk_index");
    reveal_strlit("splunk_source");
    reveal_strlit("splunk_sourcetype");
    assert("host"@[0] == 'h' && "index"@[0] == 'i' && "source"@[0] == 's' && "sourcetype"@[0]
        == 's');
    assert("host"@[1] == 'o' && "index"@[1] == 'n' && "source"@[1] == 'o' && "sourcetype"@[1]
        == 'o');
    assert("source"@.len() == 6 && "sourcetype"@.len() == 10);
    assert(INDEX@[1] == 'p' && SOURCE@[1] == 'p' && SOURCETYPE@[1] == 'p');
}

/// Where a piece of URL metadata goes: in the Legacy namespace under its prefixed name at the root
/// of the event, in the Vector namespace under its name beside it.
pub open spec fn url_metadata_named(
    namespace: LogNamespace,
    log: LogView,
    prefixed: Seq<char>,
    name: Seq<char>,
) -> Option<ValueView> {
    match namespace {
        LogNamespace::Legacy => value::field(log.value, prefixed),
        LogNamespace::Vector => value::at(log.metadata, seq![log_event::NAME@, name]),
    }
}

proof fn lemma_url_noted_keeps_named(
    namespace: LogNamespace,
    log: LogView,
    key: Option<LegacyKeyView>,
    root: Seq<char>,
    v: Option<Seq<char>>,
    forward: bool,
    prefixed: Seq<char>,
    name: Seq<char>,
)
    requires
        match namespace {
            LogNamespace::Legacy => v is Some ==> event_laws::spared(key, log.value, prefixed)
                && prefixed != root,
            LogNamespace::Vector => name != root,
        },
    ensures
        url_metadata_named(
            namespace,
            raw::url_noted(namespace, log, key, root, v, forward),
            prefixed,
            name,
        ) == url_metadata_named(namespace, log, prefixed, name),
{
    match namespace {
        LogNamespace::Legacy => lemma_url_noted_keeps(
            namespace,
            log,
            key,
            root,
            v,
            forward,
            prefixed,
        ),
        LogNamespace::Vector => match v {
            Some(s) => event_laws::lemma_metadata_is_kept(
                namespace,
                log,
                key,
                seq![root],
                value::text_value(s),
                name,
            ),
            None => {},
        },
    }
}

proof fn lemma_url_noted_sets_named(
    namespace: LogNamespace,
    log: LogView,
    v: Option<Seq<char>>,
    forward: bool,
    prefixed: Seq<char>,
    name: Seq<char>,
)
    requires
        prefixed != name,
    ensures
        v matches Some(s) ==> url_metadata_named(
            namespace,
            raw::url_noted(
                namespace,
                log,
                Some(LegacyKeyView::Overwrite(seq![prefixed])),
                name,
                v,
                forward,
            ),
            prefixed,
            name,
        ) == Some(value::text_value(s)),
{
    match v {
        Some(s) => {
            let x = value::text_value(s);
            let key = Some(LegacyKeyView::Overwrite(seq![prefixed]));
            let noted = log_event::source_noted(namespace, log, key, seq![name], x);
            value::lemma_put_one(log.value, prefixed, x);
            let path = seq![log_event::NAME@] + seq![name];
            assert(path =~= seq![log_event::NAME@, name]);
            event_laws::law_what_is_put_stands_there(log.metadata, path, x);
            event_laws::law_what_is_put_leaves_other_fields(noted.value, seq![name], x, prefixed);
        },
        None => {},
    }
}

proof fn lemma_time_keeps_named(
    namespace: LogNamespace,
    schema: SchemaView,
    log: LogView,
    time: Option<Timestamp>,
    prefixed: Seq<char>,
    name: Seq<char>,
)
    requires
        match namespace {
            LogNamespace::Legacy => time is Some ==> event_laws::clear_of(
                schema.timestamp_key,
                prefixed,
            ),
            LogNamespace::Vector => name != "timestamp"@,
        },
    ensures
        url_metadata_named(
            namespace,
            match time {
                Some(t) => events::with_time(namespace, schema, log, t),
                None => log,
            },
            prefixed,
            name,
        ) == url_metadata_named(namespace, log, prefixed, name),
{
    match (namespace, time) {
        (LogNamespace::Legacy, Some(t)) => {
            event_laws::lemma_time_keeps(namespace, schema, log, t, prefixed);
        },
        (LogNamespace::Vector, Some(t)) => {
            event_laws::lemma_metadata_is_kept(
                namespace,
                log,
                event_laws::overwrite(schema.timestamp_key),
                seq!["timestamp"@],
                ValueView::Timestamp(t),
                name,
            );
        },
        _ => {},
    }
}

proof fn lemma_prefixed_names()
    ensures
        INDEX@ != SOURCETYPE@,
        INDEX@ != SOURCE@,
        SOURCETYPE@ != SOURCE@,
        CHANNEL@ != INDEX@,
        CHANNEL@ != SOURCETYPE@,
        CHANNEL@ != SOURCE@,
        CHANNEL@ != "host"@,
        CHANNEL@ != "index"@,
        CHANNEL@ != "sourcetype"@,
        CHANNEL@ != "source"@,
        CHANNEL@ != "timestamp"@,
        "index"@ != "timestamp"@,
        "sourcetype"@ != "timestamp"@,
        "source"@ != "timestamp"@,
        log_event::NAME@ != "vector"@,
{
    reveal_strlit("host");
    reveal_strlit("index");
    reveal_strlit("sourcetype");
    reveal_strlit("source");
    reveal_strlit("timestamp");
    reveal_strlit("vector");
    reveal_strlit("splunk_hec_full");
    reveal_strlit("splunk_channel");
    reveal_strlit("splunk_index");
    reveal_strlit("splunk_source");
    reveal_strlit("splunk_sourcetype");
    assert(INDEX@[7] == 'i' && SOURCE@[7] == 's' && SOURCETYPE@[7] == 's' && CHANNEL@[7] == 'c');
    assert(SOURCE@.len() == 13 && SOURCETYPE@.len() == 17 && CHANNEL@.len() == 14);
    assert("host"@.len() == 4 && "index"@.len() == 5 && "sourcetype"@.len() == 10);
    assert("source"@.len() == 6 && "timestamp"@.len() == 9);
    assert(log_event::NAME@.len() == 15 && "vector"@.len() == 6);
}

/// Every event of a raw request has the index, the source type and the source of the URL: in the
/// Legacy namespace under prefixed names, in the Vector namespace beside it.
pub proof fn law_every_raw_event_has_prefixed_metadata(
    pending: PendingRawView,
    schema: SchemaView,
    clock: Seq<Timestamp>,
    i: int,
)
    requires
        0 <= i < exchange::raw_messages(pending).len(),
        pending.context.log_namespace is Legacy && pending.metadata.time is Some ==> {
            &&& event_laws::clear_of(schema.timestamp_key, INDEX@)
            &&& event_laws::clear_of(schema.timestamp_key, SOURCETYPE@)
            &&& event_laws::clear_of(schema.timestamp_key, SOURCE@)
        },
    ensures
        ({
            let namespace = pending.context.log_namespace;
            let log = exchange::raw_outcome(pending, schema, clock)[i];
            let meta = pending.metadata;
            &&& meta.index matches Some(s) ==> url_metadata_named(
                namespace,
                log,
                INDEX@,
                "index"@,
            ) == Some(value::text_value(s))
            &&& meta.sourcetype matches Some(s) ==> url_metadata_named(
                namespace,
                log,
                SOURCETYPE@,
                "sourcetype"@,
            ) == Some(value::text_value(s))
            &&& meta.source matches Some(s) ==> url_metadata_named(
                namespace,
                log,
                SOURCE@,
                "source"@,
            ) == Some(value::text_value(s))
        }),
{
    let namespace = pending.context.log_namespace;
    let meta = pending.metadata;
    let forward = meta.auto_forward_metadata;
    let log = raw::raw_log(
        pending.context,
        schema,
        exchange::raw_messages(pending)[i],
        clock[i],
    );
    assert(raw::raw_logs(
        pending.context,
        schema,
        exchange::raw_messages(pending),
        clock,
    )[i] == log);
    let sourcetype = Some(LegacyKeyView::Overwrite(seq![SOURCETYPE@]));
    let source = Some(LegacyKeyView::Overwrite(seq![SOURCE@]));
    let a = raw::url_noted(
        namespace,
        log,
        raw::if_empty(schema.host_key),
        "host"@,
        meta.host,
        forward,
    );
    let b = raw::url_noted(
        namespace,
        a,
        Some(LegacyKeyView::Overwrite(seq![INDEX@])),
        "index"@,
        meta.index,
        forward,
    );
    let c = raw::url_noted(namespace, b, sourcetype, "sourcetype"@, meta.sourcetype, forward);
    let d = raw::url_noted(namespace, c, source, "source"@, meta.source, forward);
    let e = match meta.token {
        Some(token) => LogView { hec_token: Some(token), ..d },
        None => d,
    };
    lemma_url_names();
    lemma_prefixed_names();
    lemma_url_noted_sets_named(namespace, a, meta.index, forward, INDEX@, "index"@);
    lemma_url_noted_keeps_named(
        namespace,
        b,
        sourcetype,
        "sourcetype"@,
        meta.sourcetype,
        forward,
        INDEX@,
        "index"@,
    );
    lemma_url_noted_keeps_named(
        namespace,
        c,
        source,
        "source"@,
        meta.source,
        forward,
        INDEX@,
        "index"@,
    );
    lemma_url_noted_sets_named(namespace, b, meta.sourcetype, forward, SOURCETYPE@, "sourcetype"@);
    lemma_url_noted_keeps_named(
        namespace,
        c,
        source,
        "source"@,
        meta.source,
        forward,
        SOURCETYPE@,
        "sourcetype"@,
    );
    lemma_url_noted_sets_named(namespace, c, meta.source, forward, SOURCE@, "source"@);
    lemma_time_keeps_named(namespace, schema, e, meta.time, INDEX@, "index"@);
    lemma_time_keeps_named(namespace, schema, e, meta.time, SOURCETYPE@, "sourcetype"@);
    lemma_time_keeps_named(namespace, schema, e, meta.time, SOURCE@, "source"@);
}

proof fn lemma_vector_noted_keeps_channel(
    namespace: LogNamespace,
    log: LogView,
    key: Option<Seq<Seq<char>>>,
    name: Seq<char>,
    v: ValueView,
)
    requires
        namespace is Legacy ==> not_inside(key, CHANNEL@),
        event_laws::metadata_named(namespace, log, CHANNEL@) is Some,
    ensures
        event_laws::metadata_named(
            namespace,
            log_event::vector_noted(namespace, log, key, seq![name], v),
            CHANNEL@,
        ) == event_laws::metadata_named(namespace, log, CHANNEL@),
{
    match namespace {
        LogNamespace::Legacy => {
            lemma_not_inside(key, log.value, CHANNEL@);
            event_laws::lemma_vector_noted_keeps(namespace, log, key, seq![name], v, CHANNEL@);
        },
        LogNamespace::Vector => {
            lemma_prefixed_names();
            let path = seq!["vector"@] + seq![name];
            let metadata = value::put(log.metadata, path, v);
            event_laws::law_what_is_put_leaves_other_fields(
                log.metadata,
                path,
                v,
                log_event::NAME@,
            );
            event_laws::lemma_at_two(log.metadata, log_event::NAME@, CHANNEL@);
            event_laws::lemma_at_two(metadata, log_event::NAME@, CHANNEL@);
        },
    }
}

/// Every event of a raw request carries its channel, unless a path of the schema takes that place.
pub proof fn law_every_raw_event_carries_the_channel(
    pending: PendingRawView,
    schema: SchemaView,
    clock: Seq<Timestamp>,
    i: int,
)
    requires
        0 <= i < exchange::raw_messages(pending).len(),
        pending.context.log_namespace is Legacy ==> {
            &&& pending.context.host is Some || pending.metadata.host is Some ==> not_inside(
                schema.host_key,
                CHANNEL@,
            )
            &&& not_inside(schema.source_type_key, CHANNEL@)
            &&& not_inside(schema.timestamp_key, CHANNEL@)
            &&& pending.metadata.time is Some ==> event_laws::clear_of(
                schema.timestamp_key,
                CHANNEL@,
            )
        },
    ensures
        event_laws::metadata_named(
            pending.context.log_namespace,
            exchange::raw_outcome(pending, schema, clock)[i],
            CHANNEL@,
        ) == Some(value::text_value(pending.context.channel)),
{
    let context = pending.context;
    let namespace = context.log_namespace;
    let meta = pending.metadata;
    let forward = meta.auto_forward_metadata;
    let message = exchange::raw_messages(pending)[i];
    let log = raw::raw_log(context, schema, message, clock[i]);
    assert(raw::raw_logs(context, schema, exchange::raw_messages(pending), clock)[i] == log);
    lemma_url_names();
    lemma_prefixed_names();
    let channel = value::text_value(context.channel);
    let bare = raw::message_log(context, schema, message);
    event_laws::lemma_metadata_is_set(namespace, bare, CHANNEL@, channel);
    let noted = log_event::source_noted(
        namespace,
        bare,
        Some(LegacyKeyView::Overwrite(seq![CHANNEL@])),
        seq![CHANNEL@],
        channel,
    );
    let host_key = raw::if_empty(schema.host_key);
    match context.host {
        Some(host) => {
            if namespace is Legacy {
                lemma_not_inside(schema.host_key, noted.value, CHANNEL@);
            }
            event_laws::lemma_metadata_is_kept(
                namespace,
                noted,
                host_key,
                seq!["host"@],
                value::text_value(host),
                CHANNEL@,
            );
        },
        None => {},
    }
    let hosted = raw::with_host(namespace, schema, noted, context.host);
    let kind = value::text_value(log_event::NAME@);
    lemma_vector_noted_keeps_channel(
        namespace,
        hosted,
        schema.source_type_key,
        "source_type"@,
        kind,
    );
    let typed = log_event::vector_noted(
        namespace,
        hosted,
        schema.source_type_key,
        seq!["source_type"@],
        kind,
    );
    lemma_vector_noted_keeps_channel(
        namespace,
        typed,
        schema.timestamp_key,
        "ingest_timestamp"@,
        ValueView::Timestamp(clock[i]),
    );
    assert(event_laws::metadata_named(namespace, log, CHANNEL@) == Some(channel));
    let index = Some(LegacyKeyView::Overwrite(seq![INDEX@]));
    let sourcetype = Some(LegacyKeyView::Overwrite(seq![SOURCETYPE@]));
    let source = Some(LegacyKeyView::Overwrite(seq![SOURCE@]));
    let a = raw::url_noted(namespace, log, host_key, "host"@, meta.host, forward);
    let b = raw::url_noted(namespace, a, index, "index"@, meta.index, forward);
    let c = raw::url_noted(namespace, b, sourcetype, "sourcetype"@, meta.sourcetype, forward);
    let d = raw::url_noted(namespace, c, source, "source"@, meta.source, forward);
    let e = match meta.token {
        Some(token) => LogView { hec_token: Some(token), ..d },
        None => d,
    };
    let ch = CHANNEL@;
    if namespace is Legacy && meta.host is Some {
        lemma_not_inside(schema.host_key, log.value, ch);
    }
    lemma_url_noted_keeps_named(namespace, log, host_key, "host"@, meta.host, forward, ch, ch);
    lemma_url_noted_keeps_named(namespace, a, index, "index"@, meta.index, forward, ch, ch);
    lemma_url_noted_keeps_named(
        namespace,
        b,
        sourcetype,
        "sourcetype"@,
        meta.sourcetype,
        forward,
        ch,
        ch,
    );
    lemma_url_noted_keeps_named(namespace, c, source, "source"@, meta.source, forward, ch, ch);
    lemma_time_keeps_named(namespace, schema, e, meta.time, ch, ch);
}

/// Where the URL of a raw request names a time, every event of it has that time.
pub proof fn law_every_raw_event_has_the_time_of_the_url(
    pending: PendingRawView,
    schema: SchemaView,
    clock: Seq<Timestamp>,
    i: int,
    t: Timestamp,
)
    requires
        0 <= i < exchange::raw_messages(pending).len(),
        pending.metadata.time == Some(t),
    ensures
        match pending.context.log_namespace {
            LogNamespace::Legacy => schema.timestamp_key matches Some(path) ==> value::at(
                exchange::raw_outcome(pending, schema, clock)[i].value,
                path,
            ) == Some(ValueView::Timestamp(t)),
            LogNamespace::Vector => value::at(
                exchange::raw_outcome(pending, schema, clock)[i].metadata,
                seq![log_event::NAME@, "timestamp"@],
            ) == Some(ValueView::Timestamp(t)),
        },
{
    let namespace = pending.context.log_namespace;
    let log = raw::raw_log(
        pending.context,
        schema,
        exchange::raw_messages(pending)[i],
        clock[i],
    );
    assert(raw::raw_logs(
        pending.context,
        schema,
        exchange::raw_messages(pending),
        clock,
    )[i] == log);
    let untimed = raw::with_url_metadata(
        namespace,
        schema,
        log,
        UrlMetadataView { time: None, ..pending.metadata },
    );
    let x = ValueView::Timestamp(t);
    assert(exchange::raw_outcome(pending, schema, clock)[i] == events::with_time(
        namespace,
        schema,
        untimed,
        t,
    ));
    match schema.timestamp_key {
        Some(path) => event_laws::law_what_is_put_stands_there(untimed.value, path, x),
        None => {},
    }
    let beside = seq![log_event::NAME@] + seq!["timestamp"@];
    assert(beside =~= seq![log_event::NAME@, "timestamp"@]);
    event_laws::law_what_is_put_stands_there(untimed.metadata, beside, x);
}

/// Every event of a raw request carries its token, where it is kept, and its delivery is to be
/// reported exactly if that of the request is.
pub proof fn law_every_raw_event_carries_the_token(
    pending: PendingRawView,
    schema: SchemaView,
    clock: Seq<Timestamp>,
    i: int,
)
    requires
        0 <= i < exchange::raw_messages(pending).len(),
    ensures
        exchange::raw_outcome(pending, schema, clock)[i].hec_token == pending.metadata.token,
        exchange::raw_outcome(pending, schema, clock)[i].notify == pending.context.batch,
{
    let context = pending.context;
    let namespace = context.log_namespace;
    let meta = pending.metadata;
    let forward = meta.auto_forward_metadata;
    let message = exchange::raw_messages(pending)[i];
    let log = raw::raw_log(context, schema, message, clock[i]);
    assert(raw::raw_logs(context, schema, exchange::raw_messages(pending), clock)[i] == log);
    let bare = raw::message_log(context, schema, message);
    assert(bare.hec_token is None && !bare.notify);
    assert(log.hec_token is None && log.notify == context.batch);
    let a = raw::url_noted(
        namespace,
        log,
        raw::if_empty(schema.host_key),
        "host"@,
        meta.host,
        forward,
    );
    let b = raw::url_noted(
        namespace,
        a,
        Some(LegacyKeyView::Overwrite(seq![INDEX@])),
        "index"@,
        meta.index,
        forward,
    );
    let c = raw::url_noted(
        namespace,
        b,
        Some(LegacyKeyView::Overwrite(seq![SOURCETYPE@])),
        "sourcetype"@,
        meta.sourcetype,
        forward,
    );
    let d = raw::url_noted(
        namespace,
        c,
        Some(LegacyKeyView::Overwrite(seq![SOURCE@])),
        "source"@,
        meta.source,
        forward,
    );
    assert(a.hec_token == log.hec_token && a.notify == log.notify);
    assert(b.hec_token == log.hec_token && b.notify == log.notify);
    assert(c.hec_token == log.hec_token && c.notify == log.notify);
    assert(d.hec_token == log.hec_token && d.notify == log.notify);
}

/// A body that is not split is one event, whatever it holds.
pub proof fn law_unsplit_body_is_one_event(
    pending: PendingRawView,
    schema: SchemaView,
    clock: Seq<Timestamp>,
)
    requires
        !pending.split_lines,
    ensures
        exchange::raw_outcome(pending, schema, clock).len() == 1,
        exchange::raw_messages(pending)[0] == encoding::unpacked(pending.body, pending.gzip)->0,
{
}

/// The messages of a body that is split are as many as the lines of its text that hold more than
/// white space. Where there are several, they are those lines, in their order, and no others.
pub proof fn law_blank_lines_are_skipped(data: Seq<u8>, line: Seq<char>)
    ensures
        ({
            let text = encoding::utf8_lossy(data);
            let lines = raw::full_lines(text);
            &&& lines.contains(line) <==> text::split_on(text, '\n').contains(line)
                && raw::says_something(line)
            &&& raw::messages(data).len() == lines.len()
            &&& lines.len() != 1 ==> (raw::messages(data).contains(encode_utf8(line))
                <==> lines.contains(line))
            &&& lines.len() != 1 ==> forall|i: int|
                0 <= i < lines.len() ==> #[trigger] raw::messages(data)[i] == encode_utf8(lines[i])
        }),
{
    let lines = raw::full_lines(encoding::utf8_lossy(data));
    lemma_full_lines(encoding::utf8_lossy(data), line);
    if lines.len() != 1 {
        lemma_encoded_lines(lines, line);
    }
}

/// The messages of a body in UTF-8 that is split are the lines of its text that hold more than
/// white space, in their order, and no others, whether there are several of them or one.
pub proof fn law_blank_lines_of_a_text_are_skipped(data: Seq<u8>, line: Seq<char>)
    requires
        valid_utf8(data),
        raw::splits_as_utf8(data),
    ensures
        raw::messages(data).contains(encode_utf8(line)) <==> text::split_on(
            decode_utf8(data),
            '\n',
        ).contains(line) && raw::says_something(line),
        raw::messages(data).len() == raw::full_lines(decode_utf8(data)).len(),
        forall|i: int|
            0 <= i < raw::messages(data).len() ==> #[trigger] raw::messages(data)[i]
                == encode_utf8(raw::full_lines(decode_utf8(data))[i]),
{
    lemma_full_lines(decode_utf8(data), line);
    lemma_encoded_lines(raw::full_lines(decode_utf8(data)), line);
}

proof fn lemma_encoded_lines(lines: Seq<Seq<char>>, line: Seq<char>)
    ensures
        lines.map_values(|line: Seq<char>| encode_utf8(line)).contains(encode_utf8(line))
            <==> lines.contains(line),
{
    let encoded = lines.map_values(|line: Seq<char>| encode_utf8(line));
    if encoded.contains(encode_utf8(line)) {
        let i = choose|i: int| 0 <= i < encoded.len() && encoded[i] == encode_utf8(line);
        encode_utf8_decode_utf8(line);
        encode_utf8_decode_utf8(lines[i]);
        assert(lines[i] == line);
    }
    if lines.contains(line) {
        let i = choose|i: int| 0 <= i < lines.len() && lines[i] == line;
        assert(encoded[i] == encode_utf8(line));
    }
}

/// A single line that holds more than white space is kept byte for byte, whether the body is UTF-8
/// or not: the message is one of the lines of the body as it stands.
pub proof fn law_one_line_keeps_its_bytes(data: Seq<u8>)
    requires
        raw::full_lines(encoding::utf8_lossy(data)).len() == 1,
    ensures
        raw::messages(data).len() == 1,
        text::split_on(data, LINE_FEED).contains(raw::messages(data)[0]),
{
    let lines = text::split_on(data, LINE_FEED);
    law_lines_join_to_the_whole(data, LINE_FEED);
    lemma_first_full(lines);
    assert(lines[raw::first_full(lines)] == raw::messages(data)[0]);
}

proof fn lemma_first_full(lines: Seq<Seq<u8>>)
    requires
        lines.len() > 0,
    ensures
        0 <= raw::first_full(lines) < lines.len(),
    decreases lines.len(),
{
    if lines.len() > 1 {
        lemma_first_full(lines.skip(1));
    }
}

/// A body without a line end, or with one at its end only, that holds more than white space has
/// what comes before that as its message, byte for byte.
pub proof fn law_one_line_is_one_message(data: Seq<u8>, line: Seq<u8>)
    requires
        data == line || data == line.push(LINE_FEED),
        !line.contains(LINE_FEED),
        raw::full_lines(encoding::utf8_lossy(data)).len() == 1,
        raw::says_something(encoding::utf8_lossy(line)),
    ensures
        raw::messages(data) == seq![line],
{
    lemma_one_piece(line, LINE_FEED);
    assert(line.push(LINE_FEED).drop_last() =~= line);
}

/// A text of one line that holds more than white space, with or without a line end, has that line
/// as its message.
pub proof fn law_one_line_of_text_is_one_message(data: Seq<u8>, line: Seq<char>)
    requires
        raw::splits_as_utf8(data),
        data == encode_utf8(line) || data == encode_utf8(line.push('\n')),
        raw::says_something(line),
        !line.contains('\n'),
    ensures
        raw::messages(data) == seq![encode_utf8(line)],
{
    broadcast use encode_utf8_valid_utf8;

    encode_utf8_decode_utf8(line);
    encode_utf8_decode_utf8(line.push('\n'));
    lemma_one_piece(line, '\n');
    let keep = |l: Seq<char>| raw::says_something(l);
    reveal(Seq::filter);
    let alone = seq![line];
    assert(alone.drop_last() =~= Seq::empty());
    assert(alone.filter(keep) =~= seq![line]);
    let ended = seq![line].push(Seq::empty());
    assert(ended.drop_last() =~= alone);
    assert(!raw::says_something(Seq::empty()));
    assert(ended.filter(keep) =~= seq![line]);
    assert(line.push('\n').drop_last() =~= line);
    assert(raw::full_lines(decode_utf8(data)) =~= seq![line]);
    assert(raw::messages(data) =~= seq![encode_utf8(line)]);
}

proof fn lemma_encode_push(s: Seq<char>, c: char)
    ensures
        encode_utf8(s.push(c)) == encode_utf8(s) + encode_scalar(c as u32),
    decreases s.len(),
{
    let longer = s.push(c);
    if s.len() == 0 {
        assert(encode_utf8(longer.drop_first()) =~= Seq::empty());
        assert(encode_utf8(s) =~= Seq::empty());
        assert(encode_utf8(longer) =~= encode_utf8(s) + encode_scalar(c as u32));
    } else {
        lemma_encode_push(s.drop_first(), c);
        assert(longer.drop_first() =~= s.drop_first().push(c));
        assert(encode_utf8(longer) =~= encode_utf8(s) + encode_scalar(c as u32));
    }
}

proof fn lemma_only_line_feeds_hold_its_byte(c: char)
    ensures
        c == '\n' ==> encode_scalar(c as u32) == seq![LINE_FEED],
        c != '\n' ==> !encode_scalar(c as u32).contains(LINE_FEED),
{
    let v = c as u32;
    assert(v <= 0x7F ==> ((v & 0x7F) as u8 == 10 <==> v == 10)) by (bit_vector);
    assert(0xC0 | ((v >> 6) & 0x1F) as u8 != 10) by (bit_vector);
    assert(0xE0 | ((v >> 12) & 0xF) as u8 != 10) by (bit_vector);
    assert(0xF0 | ((v >> 18) & 0x7) as u8 != 10) by (bit_vector);
    assert(0x80 | (v & 0x3F) as u8 != 10) by (bit_vector);
    assert(0x80 | ((v >> 6) & 0x3F) as u8 != 10) by (bit_vector);
    assert(0x80 | ((v >> 12) & 0x3F) as u8 != 10) by (bit_vector);
}

/// What has no separator in it makes the last piece longer.
pub proof fn lemma_split_longer<A>(s: Seq<A>, more: Seq<A>, sep: A)
    requires
        !more.contains(sep),
    ensures
        text::split_on(s, sep).len() > 0,
        text::split_on(s + more, sep) == text::split_on(s, sep).drop_last().push(
            text::split_on(s, sep).last() + more,
        ),
    decreases more.len(),
{
    law_lines_join_to_the_whole(s, sep);
    let pieces = text::split_on(s, sep);
    if more.len() == 0 {
        assert(s + more =~= s);
        assert(pieces.last() + more =~= pieces.last());
        assert(pieces.drop_last().push(pieces.last()) =~= pieces);
    } else {
        let less = more.drop_last();
        assert forall|i: int| 0 <= i < less.len() implies less[i] != sep by {
            assert(more[i] != sep);
        }
        lemma_split_longer(s, less, sep);
        assert(more[more.len() - 1] != sep);
        assert((s + more).drop_last() =~= s + less);
        let before = text::split_on(s + less, sep);
        assert(before.drop_last() =~= pieces.drop_last());
        assert((pieces.last() + less).push(more.last()) =~= pieces.last() + more);
    }
}

/// The lines of a text in UTF-8 are the lines of its bytes.
pub proof fn law_lines_of_bytes_are_lines_of_text(s: Seq<char>)
    ensures
        text::split_on(encode_utf8(s), LINE_FEED) == text::split_on(s, '\n').map_values(
            |line: Seq<char>| encode_utf8(line),
        ),
    decreases s.len(),
{
    if s.len() == 0 {
        assert(text::split_on(encode_utf8(s), LINE_FEED) =~= text::split_on(s, '\n').map_values(
            |line: Seq<char>| encode_utf8(line),
        ));
    } else {
        let before = s.drop_last();
        let c = s.last();
        law_lines_of_bytes_are_lines_of_text(before);
        law_lines_join_to_the_whole(before, '\n');
        assert(before.push(c) =~= s);
        lemma_encode_push(before, c);
        lemma_only_line_feeds_hold_its_byte(c);
        let lines = text::split_on(before, '\n');
        let bytes = text::split_on(encode_utf8(before), LINE_FEED);
        if c == '\n' {
            assert(encode_utf8(s).drop_last() =~= encode_utf8(before));
            assert(encode_utf8(Seq::<char>::empty()) =~= Seq::empty());
        } else {
            lemma_split_longer(encode_utf8(before), encode_scalar(c as u32), LINE_FEED);
            lemma_encode_push(lines.last(), c);
        }
        assert(text::split_on(encode_utf8(s), LINE_FEED) =~= text::split_on(s, '\n').map_values(
            |line: Seq<char>| encode_utf8(line),
        ));
    }
}

/// The line of bytes that comes after the blank ones is, in UTF-8, the line of the text that holds
/// more than white space, where there is one such line.
pub proof fn lemma_one_full_line(data: Seq<u8>, k: int)
    requires
        valid_utf8(data),
        0 <= k < text::split_on(data, LINE_FEED).len(),
        forall|j: int|
            0 <= j < k ==> raw::is_read_blank(#[trigger] text::split_on(data, LINE_FEED)[j]),
        k + 1 < text::split_on(data, LINE_FEED).len() ==> encoding::reads_as_utf8(
            text::split_on(data, LINE_FEED)[k],
        ) && raw::says_something(encoding::utf8_lossy(text::split_on(data, LINE_FEED)[k])),
    ensures
        raw::full_lines(decode_utf8(data)).len() == 1 ==> seq![text::split_on(data, LINE_FEED)[k]]
            == raw::full_lines(decode_utf8(data)).map_values(|line: Seq<char>| encode_utf8(line)),
{
    broadcast use encode_utf8_valid_utf8;

    let s = decode_utf8(data);
    let lines = text::split_on(s, '\n');
    let bytes = text::split_on(data, LINE_FEED);
    let full = raw::full_lines(s);
    decode_utf8_encode_utf8(data);
    law_lines_of_bytes_are_lines_of_text(s);
    if full.len() == 1 {
        assert forall|j: int| 0 <= j < k implies !raw::says_something(#[trigger] lines[j]) by {
            assert(bytes[j] == encode_utf8(lines[j]));
            assert(raw::is_read_blank(bytes[j]));
            encode_utf8_decode_utf8(lines[j]);
        }
        lemma_full_lines(s, full[0]);
        assert(full.contains(full[0]));
        let i = choose|i: int| 0 <= i < lines.len() && lines[i] == full[0];
        assert(bytes[k] == encode_utf8(lines[k]));
        encode_utf8_decode_utf8(lines[k]);
        assert(raw::says_something(lines[k]));
        lemma_full_lines(s, lines[k]);
        assert(lines.contains(lines[k]));
        let at = choose|at: int| 0 <= at < full.len() && full[at] == lines[k];
        assert(full[0] == lines[k]);
        assert(seq![bytes[k]] =~= full.map_values(|line: Seq<char>| encode_utf8(line)));
    }
}

/// What has no separator in it is one piece.
pub proof fn lemma_one_piece<A>(s: Seq<A>, sep: A)
    requires
        !s.contains(sep),
    ensures
        text::split_on(s, sep) == seq![s],
    decreases s.len(),
{
    if s.len() > 0 {
        let before = s.drop_last();
        assert(s[s.len() - 1] == s.last());
        assert forall|i: int| 0 <= i < before.len() implies before[i] != sep by {
            assert(s[i] != sep);
        }
        lemma_one_piece(before, sep);
        assert(before.push(s.last()) =~= s);
        assert(text::split_on(s, sep) =~= seq![s]);
    } else {
        assert(s =~= Seq::empty());
    }
}

proof fn lemma_full_lines(s: Seq<char>, line: Seq<char>)
    ensures
        raw::full_lines(s).contains(line) <==> text::split_on(s, '\n').contains(line)
            && raw::says_something(line),
{
    let all = text::split_on(s, '\n');
    let keep = |l: Seq<char>| raw::says_something(l);
    broadcast use vstd::seq_lib::group_filter_ensures;

    if raw::full_lines(s).contains(line) {
        let i = choose|i: int| 0 <= i < all.filter(keep).len() && all.filter(keep)[i] == line;
        assert(keep(all.filter(keep)[i]));
        lemma_filter_takes_from(all, keep, line);
    }
    if all.contains(line) && raw::says_something(line) {
        let i = choose|i: int| 0 <= i < all.len() && all[i] == line;
        assert(keep(all[i]));
        assert(all.filter(keep).contains(all[i]));
    }
}

proof fn lemma_filter_takes_from(
    all: Seq<Seq<char>>,
    keep: spec_fn(Seq<char>) -> bool,
    line: Seq<char>,
)
    requires
        all.filter(keep).contains(line),
    ensures
        all.contains(line),
    decreases all.len(),
{
    reveal(Seq::filter);
    if all.len() > 0 {
        let rest = all.drop_last();
        if keep(all.last()) && line == all.last() {
            assert(all[all.len() - 1] == line);
        } else {
            let i = choose|i: int| 0 <= i < all.filter(keep).len() && all.filter(keep)[i] == line;
            assert(rest.filter(keep)[i] == line);
            lemma_filter_takes_from(rest, keep, line);
            let j = choose|j: int| 0 <= j < rest.len() && rest[j] == line;
            assert(all[j] == line);
        }
    }
}

/// Pieces with a separator between them.
pub open spec fn joined<A>(pieces: Seq<Seq<A>>, sep: A) -> Seq<A>
    decreases pieces.len(),
{
    if pieces.len() <= 1 {
        pieces[0]
    } else {
        joined(pieces.drop_last(), sep).push(sep) + pieces.last()
    }
}

/// Splitting loses nothing: the lines of a text or of bytes, joined again, are the whole.
pub proof fn law_lines_join_to_the_whole<A>(s: Seq<A>, sep: A)
    ensures
        text::split_on(s, sep).len() > 0,
        joined(text::split_on(s, sep), sep) == s,
    decreases s.len(),
{
    if s.len() > 0 {
        let before = s.drop_last();
        law_lines_join_to_the_whole(before, sep);
        let pieces = text::split_on(before, sep);
        if s.last() == sep {
            assert(pieces.push(Seq::empty()).drop_last() =~= pieces);
            assert(joined(pieces, sep).push(sep) + Seq::<A>::empty() =~= s);
        } else {
            let longer = pieces.drop_last().push(pieces.last().push(s.last()));
            if pieces.len() == 1 {
                assert(longer[0] == pieces[0].push(s.last()));
                assert(longer[0] =~= s);
            } else {
                assert(longer.drop_last() =~= pieces.drop_last());
                assert(joined(longer, sep) =~= joined(pieces, sep).push(s.last()));
                assert(joined(pieces, sep).push(s.last()) =~= s);
            }
        }
    } else {
        assert(joined(text::split_on(s, sep), sep) =~= s);
    }
}

} // verus!
