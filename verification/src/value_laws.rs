//! What holds of every value: what it shows of what it is made of, and what a JSON value becomes.
use vstd::prelude::*;
use vstd::utf8::*;

use crate::json;
use crate::json::{JsonValue, JsonView, Number};
use crate::log_event::LogEvent;
use crate::text;
use crate::timestamp::Timestamp;
use crate::value;
use crate::value::{EventValue, ValueView};

verus! {

/// A JSON value that holds no others is kept as it is: null as null, a truth value as itself, a
/// number as itself, and a text as its bytes in UTF-8, character for character.
pub proof fn law_json_scalars_are_kept(b: bool, n: u64, m: i64, bits: u64, s: Seq<char>)
    ensures
        value::json_value(JsonView::Null) == ValueView::Null,
        value::json_value(JsonView::Bool(b)) == ValueView::Boolean(b),
        n <= i64::MAX ==> value::json_value(JsonView::Number(Number::PosInt(n)))
            == ValueView::Integer(n as i64),
        n > i64::MAX ==> value::json_value(JsonView::Number(Number::PosInt(n)))
            == ValueView::Bytes(encode_utf8(text::decimal(n as nat))),
        value::json_value(JsonView::Number(Number::NegInt(m))) == ValueView::Integer(m),
        value::json_value(JsonView::Number(Number::Double(bits))) == ValueView::Float(bits),
        value::json_value(JsonView::Text(s)) == ValueView::Bytes(encode_utf8(s)),
{
}

/// Different texts become different values, and a text can be had back from its value.
pub proof fn law_json_texts_can_be_had_back(s: Seq<char>, t: Seq<char>)
    ensures
        value::json_value(JsonView::Text(s)) == value::json_value(JsonView::Text(t)) ==> s == t,
        value::json_value(JsonView::Text(s)) matches ValueView::Bytes(bytes) && decode_utf8(bytes)
            == s,
{
    encode_utf8_decode_utf8(s);
    encode_utf8_decode_utf8(t);
}

/// The items of a JSON array are kept, each at its place.
pub proof fn law_json_arrays_keep_their_items(items: Seq<JsonView>)
    ensures
        value::json_value(JsonView::Array(items)) matches ValueView::Array(kept) && kept.len()
            == items.len() && forall|i: int|
            0 <= i < items.len() ==> #[trigger] kept[i] == value::json_value(items[i]),
    decreases items.len(),
{
    if items.len() > 0 {
        let front = items.subrange(0, items.len() - 1);
        law_json_arrays_keep_their_items(front);
        let kept = value::json_items(items);
        assert forall|i: int| 0 <= i < items.len() implies #[trigger] kept[i]
            == value::json_value(items[i]) by {
            if i < front.len() {
                assert(value::json_items(front)[i] == kept[i]);
                assert(front[i] == items[i]);
            }
        }
    }
}

/// Whether entry `i` of an object is the first with that name.
pub open spec fn is_first_named(
    entries: Seq<(Seq<char>, JsonView)>,
    name: Seq<char>,
    i: int,
) -> bool {
    &&& 0 <= i < entries.len()
    &&& entries[i].0 == name
    &&& forall|j: int| 0 <= j < i ==> (#[trigger] entries[j]).0 != name
}

/// Whether no entry of an object has that name.
pub open spec fn is_unnamed(entries: Seq<(Seq<char>, JsonView)>, name: Seq<char>) -> bool {
    forall|j: int| 0 <= j < entries.len() ==> (#[trigger] entries[j]).0 != name
}

/// Each name in a JSON object is kept with the value that it first has there.
pub proof fn law_json_objects_keep_their_fields(
    entries: Seq<(Seq<char>, JsonView)>,
    name: Seq<char>,
    i: int,
)
    requires
        is_first_named(entries, name, i),
    ensures
        json::field(JsonView::Object(entries), name) == Some(entries[i].1),
        value::json_value(JsonView::Object(entries)) matches ValueView::Object(fields)
            && fields.dom().contains(name) && fields[name] == value::json_value(entries[i].1),
    decreases entries.len(),
{
    if i > 0 {
        let rest = entries.skip(1);
        assert(rest =~= entries.subrange(1, entries.len() as int));
        assert(entries[0].0 != name);
        assert forall|j: int| 0 <= j < i - 1 implies (#[trigger] rest[j]).0 != name by {
            assert(rest[j] == entries[j + 1]);
        }
        law_json_objects_keep_their_fields(rest, name, i - 1);
    }
}

/// A JSON object gets no field that it does not name.
pub proof fn law_json_objects_get_no_other_fields(
    entries: Seq<(Seq<char>, JsonView)>,
    name: Seq<char>,
)
    requires
        is_unnamed(entries, name),
    ensures
        json::field(JsonView::Object(entries), name) is None,
        value::json_value(JsonView::Object(entries)) matches ValueView::Object(fields)
            && !fields.dom().contains(name),
    decreases entries.len(),
{
    if entries.len() > 0 {
        let rest = entries.skip(1);
        assert(rest =~= entries.subrange(1, entries.len() as int));
        assert(entries[0].0 != name);
        assert forall|j: int| 0 <= j < rest.len() implies (#[trigger] rest[j]).0 != name by {
            assert(rest[j] == entries[j + 1]);
        }
        law_json_objects_get_no_other_fields(rest, name);
    }
}

/// Only JSON objects have fields.
pub proof fn law_only_json_objects_have_fields(json: JsonView, name: Seq<char>)
    requires
        !(json is Object),
    ensures
        json::field(json, name) is None,
{
}

/// A name either stands in an object, and then in one entry first, or in none.
pub proof fn law_names_stand_first_somewhere_or_nowhere(
    entries: Seq<(Seq<char>, JsonView)>,
    name: Seq<char>,
) -> (i: int)
    ensures
        is_first_named(entries, name, i) || is_unnamed(entries, name),
        json::field(JsonView::Object(entries), name) is Some <==> is_first_named(entries, name, i),
    decreases entries.len(),
{
    if entries.len() == 0 {
        law_json_objects_get_no_other_fields(entries, name);
        0
    } else if entries[0].0 == name {
        law_json_objects_keep_their_fields(entries, name, 0);
        0
    } else {
        let rest = entries.skip(1);
        let k = law_names_stand_first_somewhere_or_nowhere(rest, name);
        if is_first_named(rest, name, k) {
            assert forall|j: int| 0 <= j < k + 1 implies (#[trigger] entries[j]).0 != name by {
                if j > 0 {
                    assert(rest[j - 1] == entries[j]);
                }
            }
            assert(entries[k + 1] == rest[k]);
            law_json_objects_keep_their_fields(entries, name, k + 1);
            k + 1
        } else {
            assert forall|j: int| 0 <= j < entries.len() implies (#[trigger] entries[j]).0
                != name by {
                if j > 0 {
                    assert(rest[j - 1] == entries[j]);
                }
            }
            law_json_objects_get_no_other_fields(entries, name);
            0
        }
    }
}

/// The fields of an object are those it has, with their values; other values have none.
pub proof fn law_objects_have_their_fields(
    fields: Map<Seq<char>, ValueView>,
    name: Seq<char>,
    other: ValueView,
)
    ensures
        value::field(ValueView::Object(fields), name) == if fields.dom().contains(name) {
            Some(fields[name])
        } else {
            None
        },
        !(other is Object) ==> value::field(other, name) is None,
        value::at(other, Seq::empty()) == Some(other),
        value::at(ValueView::Object(fields), seq![name]) == value::field(
            ValueView::Object(fields),
            name,
        ),
{
    reveal_with_fuel(value::at, 2);
    assert(seq![name].skip(1) =~= Seq::empty());
}

/// Fields that are merged in stand there with their values, and the others stay as they were.
pub proof fn law_merged_fields_go_over_the_others(
    v: ValueView,
    fields: Map<Seq<char>, ValueView>,
    name: Seq<char>,
)
    ensures
        value::field(value::merged(v, fields), name) == if fields.dom().contains(name) {
            Some(fields[name])
        } else {
            value::field(v, name)
        },
{
}

/// An event value shows what it holds: itself, its bytes, its items one by one.
pub proof fn law_values_show_what_they_hold(
    b: bool,
    n: i64,
    bits: u64,
    bytes: Vec<u8>,
    t: Timestamp,
    items: Vec<EventValue>,
)
    ensures
        EventValue::Null@ == ValueView::Null,
        EventValue::Boolean(b)@ == ValueView::Boolean(b),
        EventValue::Integer(n)@ == ValueView::Integer(n),
        EventValue::Float(bits)@ == ValueView::Float(bits),
        EventValue::Bytes(bytes)@ == ValueView::Bytes(bytes@),
        EventValue::Timestamp(t)@ == ValueView::Timestamp(t),
        EventValue::Array(items)@ matches ValueView::Array(shown) && shown.len() == items.len()
            && forall|i: int| 0 <= i < items.len() ==> #[trigger] shown[i] == items[i]@,
{
    lemma_items_are_shown(items@);
}

proof fn lemma_items_are_shown(items: Seq<EventValue>)
    ensures
        value::items_view(items).len() == items.len(),
        forall|i: int| 0 <= i < items.len() ==> #[trigger] value::items_view(items)[i] == items[i]@,
    decreases items.len(),
{
    if items.len() > 0 {
        lemma_items_are_shown(items.subrange(0, items.len() - 1));
    }
}

/// An object shows each name with the value that it first has there, and no other name.
pub proof fn law_objects_show_their_entries(
    entries: Vec<(String, EventValue)>,
    name: Seq<char>,
    i: int,
)
    requires
        (0 <= i < entries.len() && entries[i].0@ == name) || i == entries.len(),
        forall|j: int| 0 <= j < i ==> (#[trigger] entries@[j]).0@ != name,
    ensures
        value::field(EventValue::Object(entries)@, name) == if i < entries.len() {
            Some(entries[i].1@)
        } else {
            None
        },
{
    lemma_entries_are_shown(entries@, name, i);
}

proof fn lemma_entries_are_shown(entries: Seq<(String, EventValue)>, name: Seq<char>, i: int)
    requires
        (0 <= i < entries.len() && entries[i].0@ == name) || i == entries.len(),
        forall|j: int| 0 <= j < i ==> (#[trigger] entries[j]).0@ != name,
    ensures
        value::entries_view(entries).dom().contains(name) <==> i < entries.len(),
        i < entries.len() ==> value::entries_view(entries)[name] == entries[i].1@,
    decreases entries.len(),
{
    if i > 0 {
        let rest = entries.subrange(1, entries.len() as int);
        assert(entries[0].0@ != name);
        assert forall|j: int| 0 <= j < i - 1 implies (#[trigger] rest[j]).0@ != name by {
            assert(rest[j] == entries[j + 1]);
        }
        lemma_entries_are_shown(rest, name, i - 1);
    }
}

/// A JSON value shows what it holds: itself, its text, its items and its entries one by one.
pub proof fn law_json_values_show_what_they_hold(
    b: bool,
    n: Number,
    s: String,
    items: Vec<JsonValue>,
    entries: Vec<(String, JsonValue)>,
)
    ensures
        JsonValue::Null@ == JsonView::Null,
        JsonValue::Bool(b)@ == JsonView::Bool(b),
        JsonValue::Number(n)@ == JsonView::Number(n),
        JsonValue::Text(s)@ == JsonView::Text(s@),
        JsonValue::Array(items)@ matches JsonView::Array(shown) && shown.len() == items.len()
            && forall|i: int| 0 <= i < items.len() ==> #[trigger] shown[i] == items[i]@,
        JsonValue::Object(entries)@ matches JsonView::Object(shown) && shown.len() == entries.len()
            && forall|i: int|
            0 <= i < entries.len() ==> #[trigger] shown[i] == (entries[i].0@, entries[i].1@),
{
    json::lemma_items_view(items@);
    json::lemma_entries_view(entries@);
}

/// The items of a stream show the values that were read, one by one, and where there was none.
pub proof fn law_streams_show_their_items(items: Seq<Option<JsonValue>>, i: int)
    requires
        0 <= i < items.len(),
    ensures
        json::stream_view(items).len() == items.len(),
        items[i] matches Some(json) ==> json::stream_view(items)[i] == Some(json@),
        items[i] is None ==> json::stream_view(items)[i] is None,
{
}

/// A number is what it reads as: an unsigned integer before a signed one, and that before a double.
pub proof fn law_numbers_are_what_they_read_as(
    n: u64,
    m: i64,
    bits: u64,
    s: Option<i64>,
    d: Option<u64>,
)
    ensures
        json::number_read(Some(n), s, d) == Number::PosInt(n),
        json::number_read(None, Some(m), d) == Number::NegInt(m),
        json::number_read(None, None, Some(bits)) == Number::Double(bits),
{
}

/// A log shows its event, its metadata, its token and whether its delivery is to be reported.
pub proof fn law_logs_show_what_they_hold(log: LogEvent)
    ensures
        log@.value == log.value@,
        log@.metadata == log.metadata@,
        log.hec_token is None ==> log@.hec_token is None,
        log.hec_token matches Some(token) ==> log@.hec_token == Some(token@),
        log@.notify == log.notify,
{
}

} // verus!
