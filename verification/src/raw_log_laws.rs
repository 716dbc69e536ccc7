//! What every log of the raw endpoint holds, name by name, and which lines of a body become logs.
use vstd::prelude::*;
use vstd::utf8::*;

use crate::encoding;
use crate::events;
use crate::log_event;
use crate::log_event::{LegacyKeyView, LogNamespace, LogView};
use crate::log_laws;
use crate::raw;
use crate::raw::{RawContext, RawContextView, UrlMetadataView, LINE_FEED};
use crate::raw_laws;
use crate::response::ApiError;
use crate::text;
use crate::text_laws;
use crate::timestamp::Timestamp;
use crate::value;
use crate::value::ValueView;

verus! {

/// A line is kept exactly if one of its characters is no white space; kept lines stay in their
/// order.
pub proof fn law_lines_are_kept_for_a_character(s: Seq<char>, line: Seq<char>)
    ensures
        raw::says_something(line) <==> exists|k: int|
            0 <= k < line.len() && !text::is_space(#[trigger] line[k]),
        raw::full_lines(s) == text::split_on(s, '\n').filter(
            |l: Seq<char>| !text_laws::all_space(l),
        ),
{
    text_laws::law_blank_texts_trim_to_nothing(line);
    assert forall|l: Seq<char>| raw::says_something(l) == !text_laws::all_space(l) by {
        text_laws::law_blank_texts_trim_to_nothing(l);
    }
    assert((|l: Seq<char>| raw::says_something(l)) =~= (|l: Seq<char>| !text_laws::all_space(l)));
}

/// Every line of a body with a character that is no white space is one of its messages: in UTF-8,
/// its bytes; else the bytes of its text, or its own where it is the only one.
pub proof fn law_lines_with_a_character_are_messages(data: Seq<u8>, line: Seq<char>, k: int)
    requires
        text::split_on(encoding::utf8_lossy(data), '\n').contains(line),
        0 <= k < line.len(),
        !text::is_space(line[k]),
    ensures
        raw::messages(data).len() > 0,
        raw::messages(data).len() > 1 ==> raw::messages(data).contains(encode_utf8(line)),
        raw::messages(data).len() == 1 ==> text::split_on(data, LINE_FEED).contains(
            raw::messages(data)[0],
        ),
        valid_utf8(data) && raw::splits_as_utf8(data) ==> raw::messages(data).contains(
            encode_utf8(line),
        ),
{
    let s = encoding::utf8_lossy(data);
    law_lines_are_kept_for_a_character(s, line);
    raw_laws::law_blank_lines_are_skipped(data, line);
    let lines = raw::full_lines(s);
    assert(lines.contains(line));
    if lines.len() == 1 {
        raw_laws::law_one_line_keeps_its_bytes(data);
    }
    if valid_utf8(data) && raw::splits_as_utf8(data) {
        raw_laws::law_blank_lines_of_a_text_are_skipped(data, line);
    }
}

/// Where a body has several messages, each is the bytes of a line of its text with a character that
/// is no white space, in the order of the lines.
pub proof fn law_messages_are_lines_with_a_character(data: Seq<u8>, i: int)
    requires
        0 <= i < raw::messages(data).len(),
        raw::messages(data).len() > 1,
    ensures
        ({
            let kept = text::split_on(encoding::utf8_lossy(data), '\n').filter(
                |l: Seq<char>| !text_laws::all_space(l),
            );
            kept.len() == raw::messages(data).len() && raw::messages(data)[i] == encode_utf8(
                kept[i],
            )
        }),
{
    law_lines_are_kept_for_a_character(encoding::utf8_lossy(data), Seq::empty());
    raw_laws::law_blank_lines_are_skipped(data, Seq::empty());
}

/// Where a body has one message, that is the line of its bytes that comes after lines of nothing
/// but white space.
pub proof fn law_the_only_message_comes_after_blank_lines(data: Seq<u8>) -> (k: int)
    requires
        raw::messages(data).len() == 1,
    ensures
        ({
            let lines = text::split_on(data, LINE_FEED);
            &&& 0 <= k < lines.len()
            &&& raw::messages(data) == seq![lines[k]]
            &&& forall|j: int|
                0 <= j < k ==> text_laws::all_space(encoding::utf8_lossy(#[trigger] lines[j]))
            &&& k + 1 < lines.len() ==> !text_laws::all_space(encoding::utf8_lossy(lines[k]))
        }),
{
    let lines = text::split_on(data, LINE_FEED);
    raw_laws::law_blank_lines_are_skipped(data, Seq::empty());
    raw_laws::law_lines_join_to_the_whole(data, LINE_FEED);
    lemma_first_full_is_first(lines);
    raw::first_full(lines)
}

proof fn lemma_first_full_is_first(lines: Seq<Seq<u8>>)
    requires
        lines.len() > 0,
    ensures
        ({
            let k = raw::first_full(lines);
            &&& 0 <= k < lines.len()
            &&& forall|j: int|
                0 <= j < k ==> text_laws::all_space(encoding::utf8_lossy(#[trigger] lines[j]))
            &&& k + 1 < lines.len() ==> !text_laws::all_space(encoding::utf8_lossy(lines[k]))
        }),
    decreases lines.len(),
{
    text_laws::law_blank_texts_trim_to_nothing(encoding::utf8_lossy(lines[0]));
    if lines.len() > 1 && !raw::says_something(encoding::utf8_lossy(lines[0])) {
        let rest = lines.skip(1);
        lemma_first_full_is_first(rest);
        let k = raw::first_full(lines);
        assert forall|j: int| 0 <= j < k implies text_laws::all_space(
            encoding::utf8_lossy(#[trigger] lines[j]),
        ) by {
            if j > 0 {
                assert(rest[j - 1] == lines[j]);
            }
        }
        assert(rest[k - 1] == lines[k]);
    }
}

/// A body that is split holds no data exactly if it is empty or its text is nothing but white
/// space; one that cannot be unpacked has the wrong format; any other is fine.
pub proof fn law_split_bodies_without_data(data: Seq<u8>)
    ensures
        raw::split_error(None) == Some(ApiError::InvalidDataFormat { event: 0 }),
        raw::split_error(Some(data)) == if data.len() == 0 || text_laws::all_space(
            encoding::utf8_lossy(data),
        ) {
            Some(ApiError::NoData)
        } else {
            None
        },
        encoding::raw_error(None) == Some(ApiError::InvalidDataFormat { event: 0 }),
        encoding::raw_error(Some(data)) == if data == Seq::<u8>::empty() {
            Some(ApiError::NoData)
        } else {
            None
        },
        encoding::unpacked(data, false) == Some(data),
        encoding::unpacked(data, true) == encoding::gunzipped(data),
{
    assert(data.len() == 0 ==> data =~= Seq::empty());
    let s = encoding::utf8_lossy(data);
    let lines = text::split_on(s, '\n');
    lemma_blank_by_lines(s);
    if text_laws::all_space(s) {
        if raw::full_lines(s).len() > 0 {
            let line = raw::full_lines(s)[0];
            raw_laws::law_blank_lines_are_skipped(data, line);
            assert(raw::full_lines(s).contains(line));
            let j = choose|j: int| 0 <= j < lines.len() && lines[j] == line;
            text_laws::law_blank_texts_trim_to_nothing(lines[j]);
        }
    } else {
        let j = choose|j: int| 0 <= j < lines.len() && !text_laws::all_space(#[trigger] lines[j]);
        text_laws::law_blank_texts_trim_to_nothing(lines[j]);
        raw_laws::law_blank_lines_are_skipped(data, lines[j]);
        assert(lines.contains(lines[j]));
    }
}

proof fn lemma_blank_by_lines(s: Seq<char>)
    ensures
        text_laws::all_space(s) <==> forall|j: int|
            0 <= j < text::split_on(s, '\n').len() ==> text_laws::all_space(
                #[trigger] text::split_on(s, '\n')[j],
            ),
    decreases s.len(),
{
    let lines = text::split_on(s, '\n');
    if s.len() == 0 {
        assert(lines[0] =~= Seq::empty());
    } else {
        let before = s.drop_last();
        let shorter = text::split_on(before, '\n');
        lemma_blank_by_lines(before);
        raw_laws::law_lines_join_to_the_whole(before, '\n');
        let c = s.last();
        assert(text_laws::all_space(s) <==> text_laws::all_space(before) && text::is_space(c)) by {
            if text_laws::all_space(s) {
                assert(text::is_space(s[s.len() - 1]));
                assert forall|i: int| 0 <= i < before.len() implies text::is_space(
                    #[trigger] before[i],
                ) by {
                    assert(text::is_space(s[i]));
                }
            }
            if text_laws::all_space(before) && text::is_space(c) {
                assert forall|i: int| 0 <= i < s.len() implies text::is_space(#[trigger] s[i]) by {
                    if i < before.len() {
                        assert(text::is_space(before[i]));
                    }
                }
            }
        }
        let last = shorter.len() - 1;
        if c == '\n' {
            assert(lines =~= shorter.push(Seq::empty()));
            if text_laws::all_space(s) {
                assert forall|j: int| 0 <= j < lines.len() implies text_laws::all_space(
                    #[trigger] lines[j],
                ) by {
                    if j <= last {
                        assert(text_laws::all_space(shorter[j]));
                    }
                }
            } else {
                let j = choose|j: int|
                    0 <= j < shorter.len() && !text_laws::all_space(#[trigger] shorter[j]);
                assert(lines[j] == shorter[j]);
            }
        } else {
            let longer = shorter[last].push(c);
            assert(lines =~= shorter.drop_last().push(longer));
            assert(lines[last] == longer);
            if text_laws::all_space(s) {
                assert(text_laws::all_space(shorter[last]));
                assert forall|j: int| 0 <= j < lines.len() implies text_laws::all_space(
                    #[trigger] lines[j],
                ) by {
                    if j < last {
                        assert(text_laws::all_space(shorter[j]));
                        assert(lines[j] == shorter[j]);
                    }
                }
            } else if !text::is_space(c) {
                assert(longer[longer.len() - 1] == c);
                assert(!text_laws::all_space(lines[last]));
            } else {
                let j = choose|j: int|
                    0 <= j < shorter.len() && !text_laws::all_space(#[trigger] shorter[j]);
                let k = choose|k: int|
                    0 <= k < shorter[j].len() && !text::is_space(#[trigger] shorter[j][k]);
                assert(lines[j][k] == shorter[j][k]);
                assert(!text_laws::all_space(lines[j]));
            }
        }
    }
}

/// The host of a raw request is who it says it was forwarded for, and the peer only where it says
/// nothing of that; the rest of its context is as it is.
pub proof fn law_forwarding_names_the_host(context: RawContext)
    ensures
        context.xff matches Some(host) ==> context@.host == Some(host@),
        context.xff is None ==> (context.remote matches Some(peer) ==> context@.host == Some(
            peer@,
        )),
        context.xff is None && context.remote is None ==> context@.host is None,
        context@.channel == context.channel@,
        context@.batch == context.batch,
        context@.log_namespace == context.log_namespace,
        context@.fix_bare_string_events == context.fix_bare_string_events,
{
}

/// The time that a query names: the seconds and nanoseconds of a double, where the calendar has
/// them; else what a whole number names; and none where there is no text, or it is neither.
pub proof fn law_queries_name_times(s: Seq<char>, secs: i64, nanos: u32, split: Option<(i64, u32)>)
    ensures
        raw::query_time(None, split) is None,
        raw::query_time(Some(s), Some((secs, nanos))) == if -8_334_601_228_800 <= secs
            <= 8_210_266_876_799 && (nanos < 1_000_000_000 || (nanos < 2_000_000_000 && secs as int
            % 60 == 59)) {
            Some(Timestamp { secs, nanos })
        } else {
            None
        },
        text::integer_in(s) is None ==> raw::query_time(Some(s), None) is None,
        text::integer_in(s) matches Some(n) ==> if 0 <= n <= i64::MAX {
            raw::query_time(Some(s), None) matches Some(t) && log_laws::is_named_by(t, n)
        } else {
            raw::query_time(Some(s), None) is None
        },
{
    match text::integer_in(s) {
        Some(n) => {
            if n <= i64::MAX {
                log_laws::law_whole_numbers_name_points_in_time(n);
            }
        },
        None => {},
    }
}

/// The first of two texts that is there, as a value.
pub open spec fn first_bytes(a: Option<Seq<char>>, b: Option<Seq<char>>) -> Option<ValueView> {
    if a is Some {
        log_laws::bytes_of(a)
    } else {
        log_laws::bytes_of(b)
    }
}

/// What the log for a message of a raw request has at the root of its event in the Legacy
/// namespace, by the default schema.
pub open spec fn legacy_field(
    context: RawContextView,
    meta: UrlMetadataView,
    message: Seq<u8>,
    now: Timestamp,
    name: Seq<char>,
) -> Option<ValueView> {
    let forward = meta.auto_forward_metadata;
    if name == "message"@ {
        Some(ValueView::Bytes(message))
    } else if name == "splunk_channel"@ {
        Some(ValueView::Bytes(encode_utf8(context.channel)))
    } else if name == "source_type"@ {
        Some(ValueView::Bytes(encode_utf8("splunk_hec_full"@)))
    } else if name == "timestamp"@ {
        match meta.time {
            Some(t) => Some(ValueView::Timestamp(t)),
            None => Some(ValueView::Timestamp(now)),
        }
    } else if name == "host"@ {
        if forward {
            first_bytes(meta.host, context.host)
        } else {
            first_bytes(context.host, meta.host)
        }
    } else if name == "splunk_index"@ || (name == "index"@ && forward) {
        log_laws::bytes_of(meta.index)
    } else if name == "splunk_sourcetype"@ || (name == "sourcetype"@ && forward) {
        log_laws::bytes_of(meta.sourcetype)
    } else if name == "splunk_source"@ || (name == "source"@ && forward) {
        log_laws::bytes_of(meta.source)
    } else {
        None
    }
}

proof fn lemma_put_two(v: ValueView, a: Seq<char>, b: Seq<char>, x: ValueView)
    ensures
        ({
            let inner = match value::field(v, a) {
                Some(inner) => inner,
                None => ValueView::Null,
            };
            value::put(v, seq![a] + seq![b], x) == ValueView::Object(
                value::fields_of(v).insert(
                    a,
                    ValueView::Object(value::fields_of(inner).insert(b, x)),
                ),
            )
        }),
{
    let inner = match value::field(v, a) {
        Some(inner) => inner,
        None => ValueView::Null,
    };
    let path = seq![a] + seq![b];
    assert(path[0] == a);
    assert(path.skip(1) =~= seq![b]);
    value::lemma_put_one(inner, b, x);
}

proof fn lemma_at_one(v: ValueView, name: Seq<char>)
    ensures
        value::at(v, seq![name]) == value::field(v, name),
{
    reveal_with_fuel(value::at, 2);
    assert(seq![name].skip(1) =~= Seq::empty());
}

/// The fields of an event with one more, over what stands there or only where nothing does.
pub open spec fn with_field(log: LogView, name: Seq<char>, v: ValueView, over: bool) -> Map<
    Seq<char>,
    ValueView,
> {
    if over || !value::fields_of(log.value).dom().contains(name) {
        value::fields_of(log.value).insert(name, v)
    } else {
        value::fields_of(log.value)
    }
}

/// In the Legacy namespace a piece of metadata becomes one field of the event.
pub proof fn lemma_legacy_noted(log: LogView, name: Seq<char>, path: Seq<Seq<char>>, v: ValueView)
    requires
        log.value is Object,
    ensures
        log_event::source_noted(
            LogNamespace::Legacy,
            log,
            Some(LegacyKeyView::Overwrite(seq![name])),
            path,
            v,
        ).value == ValueView::Object(with_field(log, name, v, true)),
        log_event::source_noted(
            LogNamespace::Legacy,
            log,
            Some(LegacyKeyView::InsertIfEmpty(seq![name])),
            path,
            v,
        ).value == ValueView::Object(with_field(log, name, v, false)),
        log_event::vector_noted(LogNamespace::Legacy, log, Some(seq![name]), path, v).value
            == ValueView::Object(with_field(log, name, v, false)),
        log_event::inserted(log, seq![name], v).value == ValueView::Object(
            with_field(log, name, v, true),
        ),
{
    value::lemma_put_one(log.value, name, v);
    lemma_at_one(log.value, name);
}

proof fn lemma_legacy_url_noted(
    log: LogView,
    key: LegacyKeyView,
    at: Seq<char>,
    over: bool,
    name: Seq<char>,
    v: Option<Seq<char>>,
    forward: bool,
)
    requires
        log.value is Object,
        key == if over {
            LegacyKeyView::Overwrite(seq![at])
        } else {
            LegacyKeyView::InsertIfEmpty(seq![at])
        },
    ensures
        ({
            let noted = raw::url_noted(LogNamespace::Legacy, log, Some(key), name, v, forward);
            let before = value::fields_of(log.value);
            &&& noted.value is Object
            &&& v is None ==> noted.value == log.value
            &&& v matches Some(s) ==> value::fields_of(noted.value) == {
                let x = ValueView::Bytes(encode_utf8(s));
                let once = with_field(log, at, x, over);
                if forward {
                    once.insert(name, x)
                } else {
                    once
                }
            }
        }),
{
    match v {
        Some(s) => {
            let x = value::text_value(s);
            lemma_legacy_noted(log, at, seq![name], x);
            let once = log_event::source_noted(
                LogNamespace::Legacy,
                log,
                Some(key),
                seq![name],
                x,
            );
            lemma_legacy_noted(once, name, seq![name], x);
        },
        None => {},
    }
}

/// In the Legacy namespace the log for a message of a raw request has the message, byte for byte,
/// the channel, the host, the kind of its source, the time, and the metadata of the URL, each as it
/// is and by its name; and nothing else.
pub proof fn law_raw_logs_of_the_legacy_namespace(
    context: RawContextView,
    meta: UrlMetadataView,
    message: Seq<u8>,
    now: Timestamp,
    name: Seq<char>,
)
    requires
        context.log_namespace is Legacy,
    ensures
        ({
            let schema = log_laws::default_schema();
            let log = raw::with_url_metadata(
                LogNamespace::Legacy,
                schema,
                raw::raw_log(context, schema, message, now),
                meta,
            );
            &&& value::field(log.value, name) == legacy_field(context, meta, message, now, name)
            &&& log.metadata == ValueView::Object(Map::<Seq<char>, ValueView>::empty())
            &&& log.hec_token == meta.token
            &&& log.notify == context.batch
        }),
{
    log_laws::lemma_lengths();
    let namespace = LogNamespace::Legacy;
    let schema = log_laws::default_schema();
    let bare = raw::message_log(context, schema, message);
    lemma_legacy_noted(
        log_event::empty_log(),
        "message"@,
        seq!["message"@],
        ValueView::Bytes(message),
    );
    let channel = value::text_value(context.channel);
    lemma_legacy_noted(bare, "splunk_channel"@, seq!["splunk_channel"@], channel);
    let named = log_event::source_noted(
        namespace,
        bare,
        Some(LegacyKeyView::Overwrite(seq![events::CHANNEL@])),
        seq![events::CHANNEL@],
        channel,
    );
    match context.host {
        Some(host) => lemma_legacy_noted(named, "host"@, seq!["host"@], value::text_value(host)),
        None => {},
    }
    let hosted = raw::with_host(namespace, schema, named, context.host);
    assert(hosted.value is Object);
    let kind = value::text_value("splunk_hec_full"@);
    lemma_legacy_noted(hosted, "source_type"@, seq!["source_type"@], kind);
    let typed = log_event::vector_noted(
        namespace,
        hosted,
        schema.source_type_key,
        seq!["source_type"@],
        kind,
    );
    lemma_legacy_noted(
        typed,
        "timestamp"@,
        seq!["ingest_timestamp"@],
        ValueView::Timestamp(now),
    );
    let log = raw::raw_log(context, schema, message, now);
    assert(log.value is Object);
    let forward = meta.auto_forward_metadata;
    let host_key = LegacyKeyView::InsertIfEmpty(seq!["host"@]);
    let index_key = LegacyKeyView::Overwrite(seq![events::INDEX@]);
    let sourcetype_key = LegacyKeyView::Overwrite(seq![events::SOURCETYPE@]);
    let source_key = LegacyKeyView::Overwrite(seq![events::SOURCE@]);
    let a = raw::url_noted(namespace, log, Some(host_key), "host"@, meta.host, forward);
    let b = raw::url_noted(namespace, a, Some(index_key), "index"@, meta.index, forward);
    let c = raw::url_noted(
        namespace,
        b,
        Some(sourcetype_key),
        "sourcetype"@,
        meta.sourcetype,
        forward,
    );
    let d = raw::url_noted(namespace, c, Some(source_key), "source"@, meta.source, forward);
    lemma_legacy_url_noted(log, host_key, "host"@, false, "host"@, meta.host, forward);
    lemma_legacy_url_noted(a, index_key, "splunk_index"@, true, "index"@, meta.index, forward);
    lemma_legacy_url_noted(
        b,
        sourcetype_key,
        "splunk_sourcetype"@,
        true,
        "sourcetype"@,
        meta.sourcetype,
        forward,
    );
    lemma_legacy_url_noted(c, source_key, "splunk_source"@, true, "source"@, meta.source, forward);
    let e = match meta.token {
        Some(token) => LogView { hec_token: Some(token), ..d },
        None => d,
    };
    match meta.time {
        Some(t) => lemma_legacy_noted(e, "timestamp"@, seq!["timestamp"@], ValueView::Timestamp(t)),
        None => {},
    }
}

/// What the log for a message of a raw request has at the root of its event in the Vector
/// namespace.
pub open spec fn vector_field(
    context: RawContextView,
    meta: UrlMetadataView,
    message: Seq<u8>,
    name: Seq<char>,
) -> Option<ValueView> {
    if name == "message"@ && context.fix_bare_string_events {
        Some(ValueView::Bytes(message))
    } else if !meta.auto_forward_metadata {
        None
    } else if name == "host"@ {
        log_laws::bytes_of(meta.host)
    } else if name == "index"@ {
        log_laws::bytes_of(meta.index)
    } else if name == "sourcetype"@ {
        log_laws::bytes_of(meta.sourcetype)
    } else if name == "source"@ {
        log_laws::bytes_of(meta.source)
    } else {
        None
    }
}

/// What the log for a message of a raw request has in its metadata in the Vector namespace, under
/// the name of this source.
pub open spec fn vector_metadata(
    context: RawContextView,
    meta: UrlMetadataView,
    name: Seq<char>,
) -> Option<ValueView> {
    if name == "splunk_channel"@ {
        Some(ValueView::Bytes(encode_utf8(context.channel)))
    } else if name == "host"@ {
        first_bytes(meta.host, context.host)
    } else if name == "index"@ {
        log_laws::bytes_of(meta.index)
    } else if name == "sourcetype"@ {
        log_laws::bytes_of(meta.sourcetype)
    } else if name == "source"@ {
        log_laws::bytes_of(meta.source)
    } else if name == "timestamp"@ {
        match meta.time {
            Some(t) => Some(ValueView::Timestamp(t)),
            None => None,
        }
    } else {
        None
    }
}

/// The fields of what the metadata has under a name.
pub open spec fn under(v: ValueView, root: Seq<char>) -> Map<Seq<char>, ValueView> {
    match value::field(v, root) {
        Some(inner) => value::fields_of(inner),
        None => Map::empty(),
    }
}

/// Whether a value is an object with no fields but those of these names.
pub open spec fn has_only(v: ValueView, a: Seq<char>, b: Seq<char>) -> bool {
    &&& v is Object
    &&& forall|root: Seq<char>| #[trigger]
        value::fields_of(v).dom().contains(root) ==> root == a || root == b
}

/// A piece of metadata below a name becomes one field there, and nothing else changes.
pub proof fn lemma_noted_under(log: LogView, root: Seq<char>, name: Seq<char>, v: ValueView)
    ensures
        ({
            let after = log_event::noted(log, seq![root] + seq![name], v);
            &&& under(after.metadata, root) == under(log.metadata, root).insert(name, v)
            &&& forall|other: Seq<char>|
                other != root ==> #[trigger] under(after.metadata, other) == under(
                    log.metadata,
                    other,
                )
            &&& forall|a: Seq<char>, b: Seq<char>|
                has_only(log.metadata, a, b) && (root == a || root == b) ==> #[trigger] has_only(
                    after.metadata,
                    a,
                    b,
                )
        }),
{
    lemma_put_two(log.metadata, root, name, v);
}

proof fn lemma_vector_url_noted(
    log: LogView,
    key: Option<LegacyKeyView>,
    name: Seq<char>,
    v: Option<Seq<char>>,
    forward: bool,
)
    requires
        has_only(log.metadata, "splunk_hec_full"@, "vector"@),
    ensures
        ({
            let own = "splunk_hec_full"@;
            let noted = raw::url_noted(LogNamespace::Vector, log, key, name, v, forward);
            &&& has_only(noted.metadata, own, "vector"@)
            &&& v is None || !forward ==> noted.value == log.value
            &&& v is None ==> under(noted.metadata, own) == under(log.metadata, own)
            &&& v matches Some(s) ==> {
                let x = ValueView::Bytes(encode_utf8(s));
                &&& under(noted.metadata, own) == under(log.metadata, own).insert(name, x)
                &&& forward ==> value::fields_of(noted.value) == value::fields_of(log.value).insert(
                    name,
                    x,
                )
            }
            &&& under(noted.metadata, "vector"@) == under(log.metadata, "vector"@)
            &&& noted.hec_token == log.hec_token
            &&& noted.notify == log.notify
        }),
{
    log_laws::lemma_lengths();
    match v {
        Some(s) => {
            let x = value::text_value(s);
            lemma_noted_under(log, "splunk_hec_full"@, name, x);
            value::lemma_put_one(log.value, name, x);
        },
        None => {},
    }
}

/// In the Vector namespace the log for a message of a raw request is the message, byte for byte, or
/// has it as a field where bare events are to be avoided. The channel, the host, the metadata of
/// the URL and its time stand beside it under the name of this source, each as it is, and so do the
/// kind of its source and the time at which it came; and nothing else.
pub proof fn law_raw_logs_of_the_vector_namespace(
    context: RawContextView,
    meta: UrlMetadataView,
    message: Seq<u8>,
    now: Timestamp,
    name: Seq<char>,
)
    requires
        context.log_namespace is Vector,
    ensures
        ({
            let schema = log_laws::default_schema();
            let own = "splunk_hec_full"@;
            let log = raw::with_url_metadata(
                LogNamespace::Vector,
                schema,
                raw::raw_log(context, schema, message, now),
                meta,
            );
            &&& !context.fix_bare_string_events && !meta.auto_forward_metadata ==> log.value
                == ValueView::Bytes(message)
            &&& value::field(log.value, name) == vector_field(context, meta, message, name)
            &&& value::field(log.metadata, own) matches Some(inner) && value::field(inner, name)
                == vector_metadata(context, meta, name)
            &&& value::field(log.metadata, "vector"@) matches Some(inner) && value::field(
                inner,
                name,
            ) == if name == "source_type"@ {
                Some(ValueView::Bytes(encode_utf8(own)))
            } else if name == "ingest_timestamp"@ {
                Some(ValueView::Timestamp(now))
            } else {
                None
            }
            &&& name != own && name != "vector"@ ==> value::field(log.metadata, name) is None
            &&& log.hec_token == meta.token
            &&& log.notify == context.batch
        }),
{
    log_laws::lemma_lengths();
    let namespace = LogNamespace::Vector;
    let schema = log_laws::default_schema();
    let own = "splunk_hec_full"@;
    let bare = raw::message_log(context, schema, message);
    value::lemma_put_one(
        ValueView::Object(Map::empty()),
        "message"@,
        ValueView::Bytes(message),
    );
    let channel = value::text_value(context.channel);
    lemma_noted_under(bare, own, "splunk_channel"@, channel);
    let named = log_event::noted(bare, seq![own] + seq!["splunk_channel"@], channel);
    match context.host {
        Some(host) => lemma_noted_under(named, own, "host"@, value::text_value(host)),
        None => {},
    }
    let hosted = raw::with_host(namespace, schema, named, context.host);
    let kind = value::text_value(own);
    lemma_noted_under(hosted, "vector"@, "source_type"@, kind);
    let typed = log_event::noted(hosted, seq!["vector"@] + seq!["source_type"@], kind);
    lemma_noted_under(typed, "vector"@, "ingest_timestamp"@, ValueView::Timestamp(now));
    let log = raw::raw_log(context, schema, message, now);
    let forward = meta.auto_forward_metadata;
    let host_key = Some(LegacyKeyView::InsertIfEmpty(seq!["host"@]));
    let index_key = Some(LegacyKeyView::Overwrite(seq![events::INDEX@]));
    let sourcetype_key = Some(LegacyKeyView::Overwrite(seq![events::SOURCETYPE@]));
    let source_key = Some(LegacyKeyView::Overwrite(seq![events::SOURCE@]));
    let a = raw::url_noted(namespace, log, host_key, "host"@, meta.host, forward);
    let b = raw::url_noted(namespace, a, index_key, "index"@, meta.index, forward);
    let c = raw::url_noted(
        namespace,
        b,
        sourcetype_key,
        "sourcetype"@,
        meta.sourcetype,
        forward,
    );
    let d = raw::url_noted(namespace, c, source_key, "source"@, meta.source, forward);
    lemma_vector_url_noted(log, host_key, "host"@, meta.host, forward);
    lemma_vector_url_noted(a, index_key, "index"@, meta.index, forward);
    lemma_vector_url_noted(b, sourcetype_key, "sourcetype"@, meta.sourcetype, forward);
    lemma_vector_url_noted(c, source_key, "source"@, meta.source, forward);
    let e = match meta.token {
        Some(token) => LogView { hec_token: Some(token), ..d },
        None => d,
    };
    match meta.time {
        Some(t) => lemma_noted_under(e, own, "timestamp"@, ValueView::Timestamp(t)),
        None => {},
    }
    let done = raw::with_url_metadata(namespace, schema, log, meta);
    assert(under(done.metadata, own).dom().contains("splunk_channel"@));
    assert(under(done.metadata, "vector"@).dom().contains("source_type"@));
}

} // verus!
