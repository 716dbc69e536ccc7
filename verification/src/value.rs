//! The values that events are made of, and how one is put at a path inside another.
use vstd::prelude::*;
use vstd::slice::slice_to_vec;
use vstd::utf8::*;

use crate::json;
use crate::json::{JsonValue, Number};
use crate::text;
use crate::timestamp::Timestamp;

verus! {

/// A value in an event. Where a name stands twice in an object, the first entry counts.
#[derive(Debug, PartialEq)]
pub enum EventValue {
    Null,
    Boolean(bool),
    Integer(i64),
    /// A floating-point number, as the bits of its double.
    Float(u64),
    /// Text in UTF-8, or any other bytes.
    Bytes(Vec<u8>),
    Timestamp(Timestamp),
    Array(Vec<EventValue>),
    Object(Vec<(String, EventValue)>),
}

/// A value with its bytes and arrays as sequences and its objects as maps.
pub enum ValueView {
    Null,
    Boolean(bool),
    Integer(i64),
    Float(u64),
    Bytes(Seq<u8>),
    Timestamp(Timestamp),
    Array(Seq<ValueView>),
    Object(Map<Seq<char>, ValueView>),
}

/// The items of an array.
pub open spec fn items_view(items: Seq<EventValue>) -> Seq<ValueView>
    decreases items,
{
    if items.len() == 0 {
        Seq::empty()
    } else {
        items_view(items.subrange(0, items.len() - 1)).push(items[items.len() - 1].view())
    }
}

/// The map that the entries of an object spell out: of entries with one key, the first counts.
pub open spec fn entries_view(entries: Seq<(String, EventValue)>) -> Map<Seq<char>, ValueView>
    decreases entries,
{
    if entries.len() == 0 {
        Map::empty()
    } else {
        entries_view(entries.subrange(1, entries.len() as int)).insert(
            entries[0].0@,
            entries[0].1.view(),
        )
    }
}

impl EventValue {
    pub open spec fn view(&self) -> ValueView
        decreases self,
    {
        match self {
            EventValue::Null => ValueView::Null,
            EventValue::Boolean(b) => ValueView::Boolean(*b),
            EventValue::Integer(n) => ValueView::Integer(*n),
            EventValue::Float(bits) => ValueView::Float(*bits),
            EventValue::Bytes(b) => ValueView::Bytes(b@),
            EventValue::Timestamp(t) => ValueView::Timestamp(*t),
            EventValue::Array(items) => ValueView::Array(items_view(items@)),
            EventValue::Object(entries) => ValueView::Object(entries_view(entries@)),
        }
    }
}

/// The fields of a value: none unless it is an object.
pub open spec fn fields_of(v: ValueView) -> Map<Seq<char>, ValueView> {
    match v {
        ValueView::Object(fields) => fields,
        _ => Map::empty(),
    }
}

/// The field of that name.
pub open spec fn field(v: ValueView, name: Seq<char>) -> Option<ValueView> {
    if fields_of(v).dom().contains(name) {
        Some(fields_of(v)[name])
    } else {
        None
    }
}

/// The value with `x` at `path`. What stands in the way of the path and is no object gives way
/// to one.
pub open spec fn put(v: ValueView, path: Seq<Seq<char>>, x: ValueView) -> ValueView
    decreases path.len(),
{
    if path.len() == 0 {
        x
    } else {
        let inner = match field(v, path[0]) {
            Some(inner) => inner,
            None => ValueView::Null,
        };
        ValueView::Object(fields_of(v).insert(path[0], put(inner, path.skip(1), x)))
    }
}

/// What stands at `path`.
pub open spec fn at(v: ValueView, path: Seq<Seq<char>>) -> Option<ValueView>
    decreases path.len(),
{
    if path.len() == 0 {
        Some(v)
    } else {
        match field(v, path[0]) {
            Some(inner) => at(inner, path.skip(1)),
            None => None,
        }
    }
}

/// The value with these fields over its own. What is no object gives way to one, unless there are
/// no fields.
pub open spec fn merged(v: ValueView, fields: Map<Seq<char>, ValueView>) -> ValueView {
    if fields == Map::<Seq<char>, ValueView>::empty() {
        v
    } else {
        ValueView::Object(fields_of(v).union_prefer_right(fields))
    }
}

/// The value with these fields over those of its field of that name.
pub open spec fn merged_under(
    v: ValueView,
    name: Seq<char>,
    fields: Map<Seq<char>, ValueView>,
) -> ValueView {
    if fields == Map::<Seq<char>, ValueView>::empty() {
        v
    } else {
        let inner = match field(v, name) {
            Some(inner) => inner,
            None => ValueView::Null,
        };
        put(v, seq![name], merged(inner, fields))
    }
}

/// Putting a value under a name puts it among the fields.
pub proof fn lemma_put_one(v: ValueView, name: Seq<char>, x: ValueView)
    ensures
        put(v, seq![name], x) == ValueView::Object(fields_of(v).insert(name, x)),
{
    reveal_with_fuel(put, 2);
    assert(seq![name].skip(1) =~= Seq::empty());
}

/// One more field merges in as it is put there.
pub proof fn lemma_merged_insert(
    v: ValueView,
    fields: Map<Seq<char>, ValueView>,
    name: Seq<char>,
    x: ValueView,
)
    ensures
        put(merged(v, fields), seq![name], x) == merged(v, fields.insert(name, x)),
{
    lemma_put_one(merged(v, fields), name, x);
    assert(fields.insert(name, x).dom().contains(name));
    assert(fields_of(merged(v, fields)).insert(name, x) =~= fields_of(v).union_prefer_right(
        fields.insert(name, x),
    ));
}

/// One more field merges in below a name as it is put there.
pub proof fn lemma_merged_under_insert(
    v: ValueView,
    outer: Seq<char>,
    fields: Map<Seq<char>, ValueView>,
    name: Seq<char>,
    x: ValueView,
)
    ensures
        put(merged_under(v, outer, fields), seq![outer] + seq![name], x) == merged_under(
            v,
            outer,
            fields.insert(name, x),
        ),
{
    let whole = merged_under(v, outer, fields);
    let inner = match field(v, outer) {
        Some(inner) => inner,
        None => ValueView::Null,
    };
    let path = seq![outer] + seq![name];
    assert(path.skip(1) =~= seq![name]);
    lemma_merged_insert(inner, fields, name, x);
    lemma_put_one(v, outer, merged(inner, fields));
    lemma_put_one(v, outer, merged(inner, fields.insert(name, x)));
    assert(fields.insert(name, x).dom().contains(name));
    assert(fields_of(whole).insert(outer, merged(inner, fields.insert(name, x))) =~= fields_of(
        v,
    ).insert(outer, merged(inner, fields.insert(name, x))));
}

/// The names along a path.
pub open spec fn path_view(path: Seq<String>) -> Seq<Seq<char>> {
    path.map_values(|name: String| name@)
}

/// Whether entry `i` is the first with that name.
spec fn is_first(entries: Seq<(String, EventValue)>, name: Seq<char>, i: int) -> bool {
    &&& 0 <= i < entries.len()
    &&& entries[i].0@ == name
    &&& forall|j: int| 0 <= j < i ==> (#[trigger] entries[j]).0@ != name
}

proof fn lemma_first_entry(entries: Seq<(String, EventValue)>, name: Seq<char>, i: int)
    requires
        is_first(entries, name, i),
    ensures
        entries_view(entries).dom().contains(name),
        entries_view(entries)[name] == entries[i].1@,
    decreases entries.len(),
{
    if i > 0 {
        let rest = entries.subrange(1, entries.len() as int);
        assert forall|j: int| 0 <= j < i - 1 implies (#[trigger] rest[j]).0@ != name by {
            assert(rest[j] == entries[j + 1]);
        }
        lemma_first_entry(rest, name, i - 1);
        assert(entries[0].0@ != name);
    }
}

proof fn lemma_no_entry(entries: Seq<(String, EventValue)>, name: Seq<char>)
    requires
        forall|j: int| 0 <= j < entries.len() ==> (#[trigger] entries[j]).0@ != name,
    ensures
        !entries_view(entries).dom().contains(name),
    decreases entries.len(),
{
    if entries.len() > 0 {
        let rest = entries.subrange(1, entries.len() as int);
        assert forall|j: int| 0 <= j < rest.len() implies (#[trigger] rest[j]).0@ != name by {
            assert(rest[j] == entries[j + 1]);
        }
        lemma_no_entry(rest, name);
        assert(entries[0].0@ != name);
    }
}

proof fn lemma_replace_entry(
    entries: Seq<(String, EventValue)>,
    name: Seq<char>,
    i: int,
    replaced: (String, EventValue),
)
    requires
        is_first(entries, name, i),
        replaced.0@ == name,
    ensures
        entries_view(entries.update(i, replaced)) == entries_view(entries).insert(
            name,
            replaced.1@,
        ),
    decreases entries.len(),
{
    let updated = entries.update(i, replaced);
    let rest = entries.subrange(1, entries.len() as int);
    let rest_updated = updated.subrange(1, updated.len() as int);
    if i == 0 {
        assert(rest =~= rest_updated);
        assert(entries_view(updated) =~= entries_view(entries).insert(name, replaced.1@));
    } else {
        assert forall|j: int| 0 <= j < i - 1 implies (#[trigger] rest[j]).0@ != name by {
            assert(rest[j] == entries[j + 1]);
        }
        lemma_replace_entry(rest, name, i - 1, replaced);
        assert(rest_updated =~= rest.update(i - 1, replaced));
        assert(entries[0].0@ != name);
        assert(entries_view(updated) =~= entries_view(entries).insert(name, replaced.1@));
    }
}

proof fn lemma_append_entry(entries: Seq<(String, EventValue)>, added: (String, EventValue))
    requires
        forall|j: int| 0 <= j < entries.len() ==> (#[trigger] entries[j]).0@ != added.0@,
    ensures
        entries_view(entries.push(added)) == entries_view(entries).insert(added.0@, added.1@),
    decreases entries.len(),
{
    let longer = entries.push(added);
    let rest = entries.subrange(1, entries.len() as int);
    let rest_longer = longer.subrange(1, longer.len() as int);
    if entries.len() == 0 {
        assert(rest_longer =~= Seq::empty());
        assert(entries_view(rest_longer) =~= Map::empty());
        assert(entries_view(longer) =~= entries_view(entries).insert(added.0@, added.1@));
    } else {
        assert forall|j: int| 0 <= j < rest.len() implies (#[trigger] rest[j]).0@ != added.0@ by {
            assert(rest[j] == entries[j + 1]);
        }
        lemma_append_entry(rest, added);
        assert(rest_longer =~= rest.push(added));
        assert(entries[0].0@ != added.0@);
        assert(entries_view(longer) =~= entries_view(entries).insert(added.0@, added.1@));
    }
}

/// Finds the first entry with that name.
fn find_entry(entries: &Vec<(String, EventValue)>, name: &str) -> (found: Option<usize>)
    ensures
        match found {
            Some(i) => is_first(entries@, name@, i as int),
            None => forall|j: int| 0 <= j < entries@.len() ==> (#[trigger] entries@[j]).0@ != name@,
        },
        found is Some <==> entries_view(entries@).dom().contains(name@),
        found matches Some(i) ==> entries_view(entries@)[name@] == entries@[i as int].1@,
{
    for i in 0..entries.len()
        invariant
            forall|j: int| 0 <= j < i ==> (#[trigger] entries@[j]).0@ != name@,
    {
        if text::str_eq(entries[i].0.as_str(), name) {
            proof {
                lemma_first_entry(entries@, name@, i as int);
            }
            return Some(i);
        }
    }
    proof {
        lemma_no_entry(entries@, name@);
    }
    None
}

impl EventValue {
    /// The object without fields.
    pub fn empty_object() -> (v: EventValue)
        ensures
            v@ == ValueView::Object(Map::empty()),
    {
        let entries: Vec<(String, EventValue)> = Vec::new();
        EventValue::Object(entries)
    }

    /// The field of that name, if the value is an object that has one.
    pub fn get(&self, name: &str) -> (found: Option<&EventValue>)
        ensures
            match found {
                Some(v) => field(self@, name@) == Some(v@),
                None => field(self@, name@) is None,
            },
    {
        match self {
            EventValue::Object(entries) => match find_entry(entries, name) {
                Some(i) => Some(&entries[i].1),
                None => None,
            },
            _ => None,
        }
    }

    /// Puts a value at `path`, from the name at position `from` on.
    fn insert_from(&mut self, path: &Vec<String>, from: usize, x: EventValue)
        requires
            from <= path.len(),
        ensures
            final(self)@ == put(old(self)@, path_view(path@).skip(from as int), x@),
        decreases path.len() - from,
    {
        let ghost names = path_view(path@).skip(from as int);
        if from == path.len() {
            *self = x;
            return ;
        }
        assert(names[0] == path@[from as int]@);
        assert(names.skip(1) =~= path_view(path@).skip(from + 1));
        let mut whole = EventValue::Null;
        std::mem::swap(&mut whole, self);
        let mut entries: Vec<(String, EventValue)> = match whole {
            EventValue::Object(entries) => entries,
            _ => Vec::new(),
        };
        assert(entries_view(entries@) =~= fields_of(old(self)@));
        let ghost before = entries@;
        match find_entry(&entries, path[from].as_str()) {
            Some(i) => {
                let (key, mut inner) = entries.remove(i);
                inner.insert_from(path, from + 1, x);
                proof {
                    lemma_replace_entry(before, names[0], i as int, (key, inner));
                }
                entries.insert(i, (key, inner));
                assert(entries@ =~= before.update(i as int, (key, inner)));
            },
            None => {
                let mut inner = EventValue::Null;
                inner.insert_from(path, from + 1, x);
                let key = path[from].clone();
                proof {
                    lemma_append_entry(before, (key, inner));
                }
                entries.push((key, inner));
            },
        }
        *self = EventValue::Object(entries);
    }

    /// Puts a value at `path`.
    pub fn insert(&mut self, path: &Vec<String>, x: EventValue)
        ensures
            final(self)@ == put(old(self)@, path_view(path@), x@),
    {
        assert(path_view(path@).skip(0) =~= path_view(path@));
        self.insert_from(path, 0, x);
    }

    /// Whether something stands at `path`, from the name at position `from` on.
    fn contains_from(&self, path: &Vec<String>, from: usize) -> (b: bool)
        requires
            from <= path.len(),
        ensures
            b == (at(self@, path_view(path@).skip(from as int)) is Some),
        decreases path.len() - from,
    {
        if from == path.len() {
            return true;
        }
        let ghost names = path_view(path@).skip(from as int);
        assert(names[0] == path@[from as int]@);
        assert(names.skip(1) =~= path_view(path@).skip(from + 1));
        match self.get(path[from].as_str()) {
            Some(inner) => inner.contains_from(path, from + 1),
            None => false,
        }
    }

    /// Whether something stands at `path`.
    pub fn contains(&self, path: &Vec<String>) -> (b: bool)
        ensures
            b == (at(self@, path_view(path@)) is Some),
    {
        assert(path_view(path@).skip(0) =~= path_view(path@));
        self.contains_from(path, 0)
    }
}

/// A text as a value: its bytes in UTF-8.
pub open spec fn text_value(s: Seq<char>) -> ValueView {
    ValueView::Bytes(encode_utf8(s))
}

/// A JSON number as a value. Whole numbers too great for a signed integer become text.
pub open spec fn number_value(n: Number) -> ValueView {
    match n {
        Number::PosInt(n) => if n <= i64::MAX {
            ValueView::Integer(n as i64)
        } else {
            text_value(text::decimal(n as nat))
        },
        Number::NegInt(n) => ValueView::Integer(n),
        Number::Double(bits) => ValueView::Float(bits),
    }
}

/// A JSON value as a value of an event.
pub open spec fn json_value(json: json::JsonView) -> ValueView
    decreases json,
{
    match json {
        json::JsonView::Null => ValueView::Null,
        json::JsonView::Bool(b) => ValueView::Boolean(b),
        json::JsonView::Number(n) => number_value(n),
        json::JsonView::Text(s) => text_value(s),
        json::JsonView::Array(items) => ValueView::Array(json_items(items)),
        json::JsonView::Object(entries) => ValueView::Object(json_fields(entries)),
    }
}

/// The items of a JSON array as values of an event.
pub open spec fn json_items(items: Seq<json::JsonView>) -> Seq<ValueView>
    decreases items,
{
    if items.len() == 0 {
        Seq::empty()
    } else {
        json_items(items.subrange(0, items.len() - 1)).push(json_value(items[items.len() - 1]))
    }
}

/// The entries of a JSON object as fields of an event: of entries with one name, the first counts.
pub open spec fn json_fields(entries: Seq<(Seq<char>, json::JsonView)>) -> Map<
    Seq<char>,
    ValueView,
>
    decreases entries,
{
    if entries.len() == 0 {
        Map::empty()
    } else {
        json_fields(entries.subrange(1, entries.len() as int)).insert(
            entries[0].0,
            json_value(entries[0].1),
        )
    }
}

proof fn lemma_json_fields(
    entries: Seq<(Seq<char>, json::JsonView)>,
    converted: Seq<(String, EventValue)>,
)
    requires
        entries.len() == converted.len(),
        forall|i: int|
            0 <= i < entries.len() ==> {
                &&& (#[trigger] converted[i]).0@ == entries[i].0
                &&& converted[i].1@ == json_value(entries[i].1)
            },
    ensures
        entries_view(converted) == json_fields(entries),
    decreases entries.len(),
{
    if entries.len() > 0 {
        lemma_json_fields(
            entries.subrange(1, entries.len() as int),
            converted.subrange(1, converted.len() as int),
        );
        assert(converted[0].0@ == entries[0].0);
    }
}

impl EventValue {
    /// The value that holds this text.
    pub fn text(s: &str) -> (v: EventValue)
        ensures
            v@ == text_value(s@),
            v matches EventValue::Bytes(bytes) && bytes@ == encode_utf8(s@),
    {
        EventValue::Bytes(slice_to_vec(s.as_bytes()))
    }

    /// The value of a JSON number.
    pub fn from_number(n: Number) -> (v: EventValue)
        ensures
            v@ == number_value(n),
    {
        match n {
            Number::PosInt(n) => if n <= i64::MAX as u64 {
                EventValue::Integer(n as i64)
            } else {
                EventValue::text(text::decimal_digits(n).as_str())
            },
            Number::NegInt(n) => EventValue::Integer(n),
            Number::Double(bits) => EventValue::Float(bits),
        }
    }

    /// The value that a JSON value stands for.
    pub fn from_json(json: &JsonValue) -> (v: EventValue)
        ensures
            v@ == json_value(json@),
        decreases json,
    {
        match json {
            JsonValue::Null => EventValue::Null,
            JsonValue::Bool(b) => EventValue::Boolean(*b),
            JsonValue::Number(n) => EventValue::from_number(*n),
            JsonValue::Text(s) => EventValue::text(s.as_str()),
            JsonValue::Array(items) => {
                let mut converted: Vec<EventValue> = Vec::new();
                proof {
                    json::lemma_items_view(items@);
                }
                let ghost views = json::items_view(items@);
                for i in 0..items.len()
                    invariant
                        json == JsonValue::Array(*items),
                        views.len() == items@.len(),
                        forall|j: int| 0 <= j < items@.len() ==> #[trigger] views[j] == items@[j]@,
                        items_view(converted@) == json_items(views.subrange(0, i as int)),
                {
                    let ghost before = converted@;
                    proof {
                        json::lemma_item_smaller(*json, i as int);
                    }
                    converted.push(EventValue::from_json(&items[i]));
                    assert(converted@.subrange(0, converted@.len() - 1) =~= before);
                    assert(views.subrange(0, i + 1).subrange(0, i as int) =~= views.subrange(
                        0,
                        i as int,
                    ));
                }
                assert(views.subrange(0, views.len() as int) =~= views);
                EventValue::Array(converted)
            },
            JsonValue::Object(entries) => {
                let mut converted: Vec<(String, EventValue)> = Vec::new();
                proof {
                    json::lemma_entries_view(entries@);
                }
                let ghost views = json::entries_view(entries@);
                for i in 0..entries.len()
                    invariant
                        json == JsonValue::Object(*entries),
                        views.len() == entries@.len(),
                        forall|j: int|
                            0 <= j < entries@.len() ==> #[trigger] views[j] == (
                                entries@[j].0@,
                                entries@[j].1@,
                            ),
                        converted.len() == i,
                        forall|j: int|
                            0 <= j < i ==> {
                                &&& (#[trigger] converted@[j]).0@ == views[j].0
                                &&& converted@[j].1@ == json_value(views[j].1)
                            },
                {
                    assert(views[i as int].0 == entries@[i as int].0@);
                    proof {
                        json::lemma_entry_smaller(*json, i as int);
                    }
                    converted.push((entries[i].0.clone(), EventValue::from_json(&entries[i].1)));
                }
                proof {
                    lemma_json_fields(views, converted@);
                }
                EventValue::Object(converted)
            },
        }
    }
}

proof fn lemma_item_smaller(v: EventValue, i: int)
    requires
        v is Array,
        0 <= i < v->Array_0@.len(),
    ensures
        decreases_to!(v => v->Array_0@[i]),
{
    assert(decreases_to!(v => v->Array_0));
    assert(decreases_to!(v->Array_0 => v->Array_0@));
    assert(decreases_to!(v->Array_0@ => v->Array_0@[i]));
}

proof fn lemma_entry_smaller(v: EventValue, i: int)
    requires
        v is Object,
        0 <= i < v->Object_0@.len(),
    ensures
        decreases_to!(v => v->Object_0@[i].1),
{
    assert(decreases_to!(v => v->Object_0));
    assert(decreases_to!(v->Object_0 => v->Object_0@));
    assert(decreases_to!(v->Object_0@ => v->Object_0@[i]));
    assert(decreases_to!(v->Object_0@[i] => v->Object_0@[i].1));
}

proof fn lemma_same_items(a: Seq<EventValue>, b: Seq<EventValue>)
    requires
        a.len() == b.len(),
        forall|i: int| 0 <= i < a.len() ==> (#[trigger] a[i])@ == b[i]@,
    ensures
        items_view(a) == items_view(b),
    decreases a.len(),
{
    if a.len() > 0 {
        let last = a.len() - 1;
        assert(a[last]@ == b[last]@);
        lemma_same_items(a.subrange(0, last), b.subrange(0, last));
    }
}

proof fn lemma_same_entries(a: Seq<(String, EventValue)>, b: Seq<(String, EventValue)>)
    requires
        a.len() == b.len(),
        forall|i: int| 0 <= i < a.len() ==> (#[trigger] a[i]).0@ == b[i].0@ && a[i].1@ == b[i].1@,
    ensures
        entries_view(a) == entries_view(b),
    decreases a.len(),
{
    if a.len() > 0 {
        assert(a[0].0@ == b[0].0@);
        lemma_same_entries(a.subrange(1, a.len() as int), b.subrange(1, b.len() as int));
    }
}

impl Clone for EventValue {
    fn clone(&self) -> (copy: Self)
        ensures
            copy@ == self@,
        decreases self,
    {
        match self {
            EventValue::Null => EventValue::Null,
            EventValue::Boolean(b) => EventValue::Boolean(*b),
            EventValue::Integer(n) => EventValue::Integer(*n),
            EventValue::Float(bits) => EventValue::Float(*bits),
            EventValue::Bytes(bytes) => EventValue::Bytes(slice_to_vec(bytes.as_slice())),
            EventValue::Timestamp(t) => EventValue::Timestamp(*t),
            EventValue::Array(items) => {
                let mut copies: Vec<EventValue> = Vec::new();
                for i in 0..items.len()
                    invariant
                        self == EventValue::Array(*items),
                        copies.len() == i,
                        forall|j: int| 0 <= j < i ==> (#[trigger] copies@[j])@ == items@[j]@,
                {
                    proof {
                        lemma_item_smaller(*self, i as int);
                    }
                    copies.push(items[i].clone());
                }
                proof {
                    lemma_same_items(copies@, items@);
                }
                EventValue::Array(copies)
            },
            EventValue::Object(entries) => {
                let mut copies: Vec<(String, EventValue)> = Vec::new();
                for i in 0..entries.len()
                    invariant
                        self == EventValue::Object(*entries),
                        copies.len() == i,
                        forall|j: int|
                            0 <= j < i ==> (#[trigger] copies@[j]).0@ == entries@[j].0@
                                && copies@[j].1@ == entries@[j].1@,
                {
                    proof {
                        lemma_entry_smaller(*self, i as int);
                    }
                    copies.push((entries[i].0.clone(), entries[i].1.clone()));
                }
                proof {
                    lemma_same_entries(copies@, entries@);
                }
                EventValue::Object(copies)
            },
        }
    }
}

} // verus!
