//! JSON values, and how a text is read into them.
use serde_json::Deserializer;
use vstd::prelude::*;

use crate::text;

verus! {

/// A number as JSON spells it.
#[derive(Clone, Copy, Debug, PartialEq, Eq, Structural)]
pub enum Number {
    /// A whole number that is zero or more.
    PosInt(u64),
    /// A whole number below zero.
    NegInt(i64),
    /// A number with a fraction or an exponent, as the bits of its double.
    Double(u64),
}

/// A JSON value. Where a name stands twice in an object, the first entry counts.
#[derive(Debug, PartialEq)]
pub enum JsonValue {
    Null,
    Bool(bool),
    Number(Number),
    Text(String),
    Array(Vec<JsonValue>),
    Object(Vec<(String, JsonValue)>),
}

/// A JSON value with its texts and lists as sequences.
pub enum JsonView {
    Null,
    Bool(bool),
    Number(Number),
    Text(Seq<char>),
    Array(Seq<JsonView>),
    Object(Seq<(Seq<char>, JsonView)>),
}

/// The items of an array.
pub open spec fn items_view(items: Seq<JsonValue>) -> Seq<JsonView>
    decreases items,
{
    if items.len() == 0 {
        Seq::empty()
    } else {
        items_view(items.subrange(0, items.len() - 1)).push(items[items.len() - 1].view())
    }
}

/// The entries of an object.
pub open spec fn entries_view(entries: Seq<(String, JsonValue)>) -> Seq<(Seq<char>, JsonView)>
    decreases entries,
{
    if entries.len() == 0 {
        Seq::empty()
    } else {
        entries_view(entries.subrange(0, entries.len() - 1)).push(
            (entries[entries.len() - 1].0@, entries[entries.len() - 1].1.view()),
        )
    }
}

impl JsonValue {
    pub open spec fn view(&self) -> JsonView
        decreases self,
    {
        match self {
            JsonValue::Null => JsonView::Null,
            JsonValue::Bool(b) => JsonView::Bool(*b),
            JsonValue::Number(n) => JsonView::Number(*n),
            JsonValue::Text(s) => JsonView::Text(s@),
            JsonValue::Array(items) => JsonView::Array(items_view(items@)),
            JsonValue::Object(entries) => JsonView::Object(entries_view(entries@)),
        }
    }
}

/// The items of an array, one by one.
pub proof fn lemma_items_view(items: Seq<JsonValue>)
    ensures
        items_view(items).len() == items.len(),
        forall|i: int| 0 <= i < items.len() ==> #[trigger] items_view(items)[i] == items[i]@,
    decreases items.len(),
{
    if items.len() > 0 {
        lemma_items_view(items.subrange(0, items.len() - 1));
    }
}

/// The entries of an object, one by one.
pub proof fn lemma_entries_view(entries: Seq<(String, JsonValue)>)
    ensures
        entries_view(entries).len() == entries.len(),
        forall|i: int|
            0 <= i < entries.len() ==> #[trigger] entries_view(entries)[i] == (
                entries[i].0@,
                entries[i].1@,
            ),
    decreases entries.len(),
{
    if entries.len() > 0 {
        lemma_entries_view(entries.subrange(0, entries.len() - 1));
    }
}

/// An item is smaller than its array.
pub proof fn lemma_item_smaller(v: JsonValue, i: int)
    requires
        v is Array,
        0 <= i < v->Array_0@.len(),
    ensures
        decreases_to!(v => v->Array_0@[i]),
{
    assert(decreases_to!(v => v->Array_0));
    assert(decreases_to!(v->Array_0 => v->Array_0@));
    assert(decreases_to!(v->Array_0@ => v->Array_0@[i]));
}

/// The value of an entry is smaller than its object.
pub proof fn lemma_entry_smaller(v: JsonValue, i: int)
    requires
        v is Object,
        0 <= i < v->Object_0@.len(),
    ensures
        decreases_to!(v => v->Object_0@[i].1),
{
    assert(decreases_to!(v => v->Object_0));
    assert(decreases_to!(v->Object_0 => v->Object_0@));
    assert(decreases_to!(v->Object_0@ => v->Object_0@[i]));
    assert(decreases_to!(v->Object_0@[i] => v->Object_0@[i].1));
}

/// The value of the first entry with that name.
pub open spec fn lookup(entries: Seq<(Seq<char>, JsonView)>, name: Seq<char>) -> Option<JsonView>
    decreases entries.len(),
{
    if entries.len() == 0 {
        None
    } else if entries[0].0 == name {
        Some(entries[0].1)
    } else {
        lookup(entries.skip(1), name)
    }
}

/// The field of that name. Only objects have fields.
pub open spec fn field(json: JsonView, name: Seq<char>) -> Option<JsonView> {
    match json {
        JsonView::Object(entries) => lookup(entries, name),
        _ => None,
    }
}

proof fn lemma_lookup_skips(entries: Seq<(Seq<char>, JsonView)>, name: Seq<char>, i: int)
    requires
        0 <= i <= entries.len(),
        forall|j: int| 0 <= j < i ==> (#[trigger] entries[j]).0 != name,
    ensures
        lookup(entries, name) == lookup(entries.skip(i), name),
    decreases i,
{
    if i > 0 {
        let rest = entries.skip(1);
        assert forall|j: int| 0 <= j < i - 1 implies (#[trigger] rest[j]).0 != name by {
            assert(rest[j] == entries[j + 1]);
        }
        assert(entries[0].0 != name);
        lemma_lookup_skips(rest, name, i - 1);
        assert(rest.skip(i - 1) =~= entries.skip(i));
    } else {
        assert(entries.skip(0) =~= entries);
    }
}

impl JsonValue {
    /// The field of that name, where this is an object that has one.
    pub fn get(&self, name: &str) -> (found: Option<&JsonValue>)
        ensures
            match found {
                Some(v) => field(self@, name@) == Some(v@),
                None => field(self@, name@) is None,
            },
    {
        match self {
            JsonValue::Object(entries) => {
                proof {
                    lemma_entries_view(entries@);
                }
                for i in 0..entries.len()
                    invariant
                        self@ == JsonView::Object(entries_view(entries@)),
                        entries_view(entries@).len() == entries@.len(),
                        forall|j: int|
                            0 <= j < entries@.len() ==> #[trigger] entries_view(entries@)[j] == (
                                entries@[j].0@,
                                entries@[j].1@,
                            ),
                        forall|j: int|
                            0 <= j < i ==> (#[trigger] entries_view(entries@)[j]).0 != name@,
                {
                    if text::str_eq(entries[i].0.as_str(), name) {
                        proof {
                            lemma_lookup_skips(entries_view(entries@), name@, i as int);
                            assert(entries_view(entries@).skip(i as int)[0] == entries_view(
                                entries@,
                            )[i as int]);
                        }
                        return Some(&entries[i].1);
                    }
                }
                proof {
                    lemma_lookup_skips(entries_view(entries@), name@, entries@.len() as int);
                }
                None
            },
            _ => None,
        }
    }
}

/// A value of `serde_json`.
#[verifier::external_type_specification]
#[verifier::external_body]
pub struct ExJson(serde_json::Value);

/// What a value of `serde_json` holds.
pub uninterp spec fn json_view(value: serde_json::Value) -> JsonView;

/// The outermost layer of a value of `serde_json`. A number comes as what it is as an unsigned
/// integer, as a signed one and as the bits of a double.
pub enum Layer {
    Null,
    Bool(bool),
    Number(Option<u64>, Option<i64>, Option<u64>),
    Text(String),
    Array(Vec<serde_json::Value>),
    Object(Vec<(String, serde_json::Value)>),
}

/// The number that has these readings: an unsigned integer where it is one, else a signed one
/// where it is one, else a double.
pub open spec fn number_read(
    unsigned: Option<u64>,
    signed: Option<i64>,
    double: Option<u64>,
) -> Number {
    match (unsigned, signed, double) {
        (Some(n), _, _) => Number::PosInt(n),
        (None, Some(n), _) => Number::NegInt(n),
        (None, None, Some(bits)) => Number::Double(bits),
        (None, None, None) => Number::Double(0),
    }
}

/// Takes a `serde_json::Value` apart by its variants. What it holds is what its parts hold: the
/// items of an array in their order, the entries of an object in the order of its map, and a
/// number by what `Number::as_u64`, `as_i64` and `as_f64` give.
#[verifier::external_body]
fn layer(value: serde_json::Value) -> (layer: Layer)
    ensures
        json_view(value) == match layer {
            Layer::Null => JsonView::Null,
            Layer::Bool(b) => JsonView::Bool(b),
            Layer::Number(unsigned, signed, double) => JsonView::Number(
                number_read(unsigned, signed, double),
            ),
            Layer::Text(s) => JsonView::Text(s@),
            Layer::Array(items) => JsonView::Array(
                items@.map_values(|item: serde_json::Value| json_view(item)),
            ),
            Layer::Object(entries) => JsonView::Object(
                entries@.map_values(
                    |entry: (String, serde_json::Value)| (entry.0@, json_view(entry.1)),
                ),
            ),
        },
{
    match value {
        serde_json::Value::Null => Layer::Null,
        serde_json::Value::Bool(b) => Layer::Bool(b),
        serde_json::Value::Number(n) => Layer::Number(
            n.as_u64(),
            n.as_i64(),
            n.as_f64().map(|double| double.to_bits()),
        ),
        serde_json::Value::String(s) => Layer::Text(s),
        serde_json::Value::Array(items) => Layer::Array(items),
        serde_json::Value::Object(map) => Layer::Object(map.into_iter().collect()),
    }
}

/// The number that has these readings.
fn number(unsigned: Option<u64>, signed: Option<i64>, double: Option<u64>) -> (n: Number)
    ensures
        n == number_read(unsigned, signed, double),
{
    match (unsigned, signed, double) {
        (Some(n), _, _) => Number::PosInt(n),
        (None, Some(n), _) => Number::NegInt(n),
        (None, None, Some(bits)) => Number::Double(bits),
        (None, None, None) => Number::Double(0),
    }
}

proof fn lemma_array_decreases(json: JsonView, i: int)
    requires
        json is Array,
        0 <= i < json->Array_0.len(),
    ensures
        decreases_to!(json => json->Array_0[i]),
{
    assert(decreases_to!(json => json->Array_0));
    assert(decreases_to!(json->Array_0 => json->Array_0[i]));
}

proof fn lemma_object_decreases(json: JsonView, i: int)
    requires
        json is Object,
        0 <= i < json->Object_0.len(),
    ensures
        decreases_to!(json => json->Object_0[i].1),
{
    assert(decreases_to!(json => json->Object_0));
    assert(decreases_to!(json->Object_0 => json->Object_0[i]));
    assert(decreases_to!(json->Object_0[i] => json->Object_0[i].1));
}

impl JsonValue {
    /// What a value of `serde_json` holds.
    pub fn from_serde(value: serde_json::Value) -> (json: JsonValue)
        ensures
            json@ == json_view(value),
        decreases json_view(value),
    {
        match layer(value) {
            Layer::Null => JsonValue::Null,
            Layer::Bool(b) => JsonValue::Bool(b),
            Layer::Number(unsigned, signed, double) => JsonValue::Number(
                number(unsigned, signed, double),
            ),
            Layer::Text(s) => JsonValue::Text(s),
            Layer::Array(values) => {
                let ghost views = values@.map_values(|item: serde_json::Value| json_view(item));
                let mut items: Vec<JsonValue> = Vec::new();
                for item in it: values
                    invariant
                        json_view(value) == JsonView::Array(views),
                        views == it.seq().map_values(|item: serde_json::Value| json_view(item)),
                        items_view(items@) == views.take(it.index() as int),
                {
                    assert(views[it.index() as int] == json_view(item));
                    let ghost before = items@;
                    proof {
                        lemma_array_decreases(json_view(value), it.index() as int);
                    }
                    items.push(JsonValue::from_serde(item));
                    assert(items@.subrange(0, items@.len() - 1) =~= before);
                    assert(views.take(it.index() + 1) =~= views.take(it.index() as int).push(
                        views[it.index() as int],
                    ));
                }
                assert(views.take(views.len() as int) =~= views);
                JsonValue::Array(items)
            },
            Layer::Object(fields) => {
                let ghost views = fields@.map_values(
                    |entry: (String, serde_json::Value)| (entry.0@, json_view(entry.1)),
                );
                let mut entries: Vec<(String, JsonValue)> = Vec::new();
                for field in it: fields
                    invariant
                        json_view(value) == JsonView::Object(views),
                        views == it.seq().map_values(
                            |entry: (String, serde_json::Value)| (entry.0@, json_view(entry.1)),
                        ),
                        entries_view(entries@) == views.take(it.index() as int),
                {
                    assert(views[it.index() as int] == (field.0@, json_view(field.1)));
                    let ghost before = entries@;
                    proof {
                        lemma_object_decreases(json_view(value), it.index() as int);
                    }
                    entries.push((field.0, JsonValue::from_serde(field.1)));
                    assert(entries@.subrange(0, entries@.len() - 1) =~= before);
                    assert(views.take(it.index() + 1) =~= views.take(it.index() as int).push(
                        views[it.index() as int],
                    ));
                }
                assert(views.take(views.len() as int) =~= views);
                JsonValue::Object(entries)
            },
        }
    }
}

/// The values that stand one after the other in a text, as `serde_json` reads them: `None` for
/// each place where it finds none.
pub uninterp spec fn values_in(text: Seq<char>) -> Seq<Option<JsonView>>;

/// What an item of a stream of values holds.
pub open spec fn item_view(item: Option<serde_json::Value>) -> Option<JsonView> {
    match item {
        Some(value) => Some(json_view(value)),
        None => None,
    }
}

/// Whether a text holds only what JSON takes for white space.
pub open spec fn is_blank(text: Seq<char>) -> bool {
    forall|i: int|
        0 <= i < text.len() ==> #[trigger] text[i] == ' ' || text[i] == '\n' || text[i] == '\t'
            || text[i] == '\r'
}

/// `serde_json::Deserializer::from_str`, then `into_iter` over values, to its end: the values of
/// the text in their order, with an error as `None`. Its result is named; of a text that holds
/// only white space there are none.
#[verifier::external_body]
fn read_stream(text: &str) -> (items: Vec<Option<serde_json::Value>>)
    ensures
        items@.map_values(|item: Option<serde_json::Value>| item_view(item)) == values_in(text@),
        is_blank(text@) ==> items@.len() == 0,
{
    Deserializer::from_str(text).into_iter::<serde_json::Value>().map(|item| item.ok()).collect()
}

/// What the items of a stream hold.
pub open spec fn stream_view(items: Seq<Option<JsonValue>>) -> Seq<Option<JsonView>> {
    items.map_values(
        |item: Option<JsonValue>|
            match item {
                Some(json) => Some(json@),
                None => None,
            },
    )
}

/// Reads the values that stand one after the other in a text. An item is `None` where the text
/// holds no value.
pub fn parse_values(text: &str) -> (items: Vec<Option<JsonValue>>)
    ensures
        stream_view(items@) == values_in(text@),
        is_blank(text@) ==> items@.len() == 0,
{
    let read = read_stream(text);
    let mut items: Vec<Option<JsonValue>> = Vec::new();
    for item in it: read
        invariant
            it.seq().map_values(|item: Option<serde_json::Value>| item_view(item)) == values_in(
                text@,
            ),
            items.len() == it.index(),
            stream_view(items@) == values_in(text@).take(it.index() as int),
    {
        let ghost before = items@;
        assert(values_in(text@)[it.index() as int] == item_view(item));
        match item {
            Some(value) => items.push(Some(JsonValue::from_serde(value))),
            None => items.push(None),
        }
        assert(stream_view(items@) =~= stream_view(before).push(item_view(item)));
        assert(values_in(text@).take(it.index() + 1) =~= values_in(text@).take(
            it.index() as int,
        ).push(item_view(item)));
    }
    assert(values_in(text@).take(values_in(text@).len() as int) =~= values_in(text@));
    items
}

/// The number that a text spells, as `serde_json` reads it.
pub uninterp spec fn number_in(text: Seq<char>) -> Option<Number>;

/// `serde_json::Number`'s `from_str`: the number that the whole text spells, where it spells one,
/// by what `as_u64`, `as_i64` and `as_f64` give. Its result is named.
#[verifier::external_body]
fn read_number(text: &str) -> (read: Option<(Option<u64>, Option<i64>, Option<u64>)>)
    ensures
        number_in(text@) == match read {
            Some(readings) => Some(number_read(readings.0, readings.1, readings.2)),
            None => None,
        },
{
    text.parse::<serde_json::Number>().ok().map(
        |n| (n.as_u64(), n.as_i64(), n.as_f64().map(|double| double.to_bits())),
    )
}

/// Reads the number that a text spells.
pub fn parse_number(text: &str) -> (n: Option<Number>)
    ensures
        n == number_in(text@),
{
    match read_number(text) {
        Some((unsigned, signed, double)) => Some(number(unsigned, signed, double)),
        None => None,
    }
}

} // verus!
