//! Log events, the namespaces that decide where their metadata goes, and the schema that names
//! their fields.
use vstd::prelude::*;

use crate::text;
use crate::timestamp::Timestamp;
use crate::value;
use crate::value::{EventValue, ValueView};

verus! {

/// The name of the source, under which the Vector namespace keeps its metadata.
pub const NAME: &'static str = "splunk_hec_full";

/// Where the metadata of a log goes: in the Legacy namespace into the event itself, in the Vector
/// namespace beside it.
#[derive(Clone, Copy, Debug, PartialEq, Eq, Structural)]
pub enum LogNamespace {
    Legacy,
    Vector,
}

/// A log: the event, the metadata beside it, the HEC token it came with, and whether its delivery
/// is to be reported.
#[derive(Debug, PartialEq)]
pub struct LogEvent {
    pub value: EventValue,
    pub metadata: EventValue,
    pub hec_token: Option<String>,
    pub notify: bool,
}

/// A log with its values as views.
pub struct LogView {
    pub value: ValueView,
    pub metadata: ValueView,
    pub hec_token: Option<Seq<char>>,
    pub notify: bool,
}

impl View for LogEvent {
    type V = LogView;

    open spec fn view(&self) -> LogView {
        LogView {
            value: self.value@,
            metadata: self.metadata@,
            hec_token: text::text_of(self.hec_token),
            notify: self.notify,
        }
    }
}

/// The paths at which a log keeps its message, its host, its time and the kind of source it came
/// from. A path that is not set keeps the field out.
#[derive(Debug)]
pub struct LogSchema {
    pub message_key: Option<Vec<String>>,
    pub host_key: Option<Vec<String>>,
    pub timestamp_key: Option<Vec<String>>,
    pub source_type_key: Option<Vec<String>>,
}

/// The paths of a schema as sequences of names.
pub struct SchemaView {
    pub message_key: Option<Seq<Seq<char>>>,
    pub host_key: Option<Seq<Seq<char>>>,
    pub timestamp_key: Option<Seq<Seq<char>>>,
    pub source_type_key: Option<Seq<Seq<char>>>,
}

/// The names along an optional path.
pub open spec fn key_view(key: Option<Vec<String>>) -> Option<Seq<Seq<char>>> {
    match key {
        Some(path) => Some(value::path_view(path@)),
        None => None,
    }
}

impl View for LogSchema {
    type V = SchemaView;

    open spec fn view(&self) -> SchemaView {
        SchemaView {
            message_key: key_view(self.message_key),
            host_key: key_view(self.host_key),
            timestamp_key: key_view(self.timestamp_key),
            source_type_key: key_view(self.source_type_key),
        }
    }
}

/// The path of one name.
pub fn path_of(name: &str) -> (path: Vec<String>)
    ensures
        value::path_view(path@) == seq![name@],
{
    let mut path: Vec<String> = Vec::new();
    path.push(name.to_owned());
    assert(value::path_view(path@) =~= seq![name@]);
    path
}

/// The same path, where there is one.
pub fn copy_key(key: &Option<Vec<String>>) -> (copy: Option<Vec<String>>)
    ensures
        key_view(copy) == key_view(*key),
{
    match key {
        Some(path) => {
            let mut copy: Vec<String> = Vec::new();
            for i in 0..path.len()
                invariant
                    copy@ == path@.take(i as int),
            {
                copy.push(path[i].clone());
            }
            assert(path@.take(path@.len() as int) =~= path@);
            Some(copy)
        },
        None => None,
    }
}

/// One path after another.
fn path_join(first: &str, rest: &Vec<String>) -> (path: Vec<String>)
    ensures
        value::path_view(path@) == seq![first@] + value::path_view(rest@),
{
    let mut path: Vec<String> = Vec::new();
    path.push(first.to_owned());
    for i in 0..rest.len()
        invariant
            value::path_view(path@) =~= seq![first@] + value::path_view(rest@).take(i as int),
    {
        let ghost before = path@;
        path.push(rest[i].clone());
        assert(value::path_view(path@) =~= value::path_view(before).push(rest@[i as int]@));
    }
    assert(value::path_view(rest@).take(rest@.len() as int) =~= value::path_view(rest@));
    path
}

impl Default for LogSchema {
    /// Each field under its own name.
    fn default() -> (schema: Self)
        ensures
            schema@ == (SchemaView {
                message_key: Some(seq!["message"@]),
                host_key: Some(seq!["host"@]),
                timestamp_key: Some(seq!["timestamp"@]),
                source_type_key: Some(seq!["source_type"@]),
            }),
    {
        LogSchema {
            message_key: Some(path_of("message")),
            host_key: Some(path_of("host")),
            timestamp_key: Some(path_of("timestamp")),
            source_type_key: Some(path_of("source_type")),
        }
    }
}

/// How a piece of metadata gets into a log of the Legacy namespace: at a path, over what stands
/// there or only where nothing does.
#[derive(Debug)]
pub enum LegacyKey<'a> {
    Overwrite(&'a Vec<String>),
    InsertIfEmpty(&'a Vec<String>),
}

/// A legacy key with its path as a sequence of names.
pub enum LegacyKeyView {
    Overwrite(Seq<Seq<char>>),
    InsertIfEmpty(Seq<Seq<char>>),
}

/// What an optional legacy key stands for.
pub open spec fn legacy_view(key: Option<LegacyKey>) -> Option<LegacyKeyView> {
    match key {
        Some(LegacyKey::Overwrite(path)) => Some(
            LegacyKeyView::Overwrite(value::path_view(path@)),
        ),
        Some(LegacyKey::InsertIfEmpty(path)) => Some(
            LegacyKeyView::InsertIfEmpty(value::path_view(path@)),
        ),
        None => None,
    }
}

/// The log with no fields and no metadata.
pub open spec fn empty_log() -> LogView {
    log_of(ValueView::Object(Map::empty()))
}

/// The log with this event and no metadata.
pub open spec fn log_of(event: ValueView) -> LogView {
    LogView {
        value: event,
        metadata: ValueView::Object(Map::empty()),
        hec_token: None,
        notify: false,
    }
}

/// The log with `v` at a path of its event.
pub open spec fn inserted(log: LogView, path: Seq<Seq<char>>, v: ValueView) -> LogView {
    LogView { value: value::put(log.value, path, v), ..log }
}

/// The log with `v` at a path of its event, where there is such a path.
pub open spec fn maybe_inserted(
    log: LogView,
    path: Option<Seq<Seq<char>>>,
    v: ValueView,
) -> LogView {
    match path {
        Some(path) => inserted(log, path, v),
        None => log,
    }
}

/// The log with `v` at a path of its event, where nothing stood there.
pub open spec fn inserted_if_empty(log: LogView, path: Seq<Seq<char>>, v: ValueView) -> LogView {
    if value::at(log.value, path) is Some {
        log
    } else {
        inserted(log, path, v)
    }
}

/// The log with `v` at a path of its metadata.
pub open spec fn noted(log: LogView, path: Seq<Seq<char>>, v: ValueView) -> LogView {
    LogView { metadata: value::put(log.metadata, path, v), ..log }
}

/// The log with a piece of metadata of this source: in the Vector namespace beside the event,
/// under the source's name, in the Legacy namespace in the event by the legacy key.
pub open spec fn source_noted(
    namespace: LogNamespace,
    log: LogView,
    legacy_key: Option<LegacyKeyView>,
    path: Seq<Seq<char>>,
    v: ValueView,
) -> LogView {
    match (namespace, legacy_key) {
        (LogNamespace::Vector, _) => noted(log, seq![NAME@] + path, v),
        (LogNamespace::Legacy, Some(LegacyKeyView::Overwrite(key))) => inserted(log, key, v),
        (LogNamespace::Legacy, Some(LegacyKeyView::InsertIfEmpty(key))) => inserted_if_empty(
            log,
            key,
            v,
        ),
        (LogNamespace::Legacy, None) => log,
    }
}

/// The log with a piece of metadata that logs of all sources have: in the Vector namespace beside
/// the event, in the Legacy namespace in the event, where nothing stood there.
pub open spec fn vector_noted(
    namespace: LogNamespace,
    log: LogView,
    legacy_key: Option<Seq<Seq<char>>>,
    path: Seq<Seq<char>>,
    v: ValueView,
) -> LogView {
    match (namespace, legacy_key) {
        (LogNamespace::Vector, _) => noted(log, seq!["vector"@] + path, v),
        (LogNamespace::Legacy, Some(key)) => inserted_if_empty(log, key, v),
        (LogNamespace::Legacy, None) => log,
    }
}

/// The log with the kind of source it came from and the time at which it came.
pub open spec fn standard_noted(
    namespace: LogNamespace,
    schema: SchemaView,
    log: LogView,
    now: Timestamp,
) -> LogView {
    vector_noted(
        namespace,
        vector_noted(
            namespace,
            log,
            schema.source_type_key,
            seq!["source_type"@],
            value::text_value(NAME@),
        ),
        schema.timestamp_key,
        seq!["ingest_timestamp"@],
        ValueView::Timestamp(now),
    )
}

impl Default for LogEvent {
    fn default() -> (log: Self)
        ensures
            log@ == empty_log(),
    {
        LogEvent::from_value(EventValue::empty_object())
    }
}

impl LogEvent {
    /// The log with this event and no metadata.
    pub fn from_value(event: EventValue) -> (log: Self)
        ensures
            log@ == log_of(event@),
    {
        LogEvent {
            value: event,
            metadata: EventValue::empty_object(),
            hec_token: None,
            notify: false,
        }
    }

    /// The field of that name at the root of the event.
    pub fn get(&self, name: &str) -> (found: Option<&EventValue>)
        ensures
            match found {
                Some(v) => value::field(self@.value, name@) == Some(v@),
                None => value::field(self@.value, name@) is None,
            },
    {
        self.value.get(name)
    }

    /// Puts a value at a path of the event.
    pub fn insert(&mut self, path: &Vec<String>, v: EventValue)
        ensures
            final(self)@ == inserted(old(self)@, value::path_view(path@), v@),
    {
        self.value.insert(path, v);
    }

    /// Puts a value under a name at the root of the event.
    pub fn insert_field(&mut self, name: &str, v: EventValue)
        ensures
            final(self)@ == inserted(old(self)@, seq![name@], v@),
    {
        self.insert(&path_of(name), v);
    }

    /// Puts a value at a path of the event, where there is such a path.
    pub fn maybe_insert(&mut self, path: &Option<Vec<String>>, v: EventValue)
        ensures
            final(self)@ == maybe_inserted(old(self)@, key_view(*path), v@),
    {
        match path {
            Some(path) => self.insert(path, v),
            None => {},
        }
    }

    /// Puts a value at a path of the event, where nothing stands there.
    pub fn try_insert(&mut self, path: &Vec<String>, v: EventValue)
        ensures
            final(self)@ == inserted_if_empty(old(self)@, value::path_view(path@), v@),
    {
        if !self.value.contains(path) {
            self.insert(path, v);
        }
    }

    /// Puts a value at a path of the metadata.
    pub fn note(&mut self, path: &Vec<String>, v: EventValue)
        ensures
            final(self)@ == noted(old(self)@, value::path_view(path@), v@),
    {
        self.metadata.insert(path, v);
    }
}

impl LogNamespace {
    /// The namespace that a setting chooses, where it chooses one.
    pub fn merge(self, setting: Option<bool>) -> (namespace: LogNamespace)
        ensures
            namespace == match setting {
                Some(true) => LogNamespace::Vector,
                Some(false) => LogNamespace::Legacy,
                None => self,
            },
    {
        match setting {
            Some(vector) => if vector {
                LogNamespace::Vector
            } else {
                LogNamespace::Legacy
            },
            None => self,
        }
    }

    /// Adds a piece of metadata of this source to a log.
    pub fn insert_source_metadata(
        self,
        log: &mut LogEvent,
        legacy_key: Option<LegacyKey>,
        path: &Vec<String>,
        v: EventValue,
    )
        ensures
            final(log)@ == source_noted(
                self,
                old(log)@,
                legacy_view(legacy_key),
                value::path_view(path@),
                v@,
            ),
    {
        match self {
            LogNamespace::Vector => log.note(&path_join(NAME, path), v),
            LogNamespace::Legacy => match legacy_key {
                Some(LegacyKey::Overwrite(key)) => log.insert(key, v),
                Some(LegacyKey::InsertIfEmpty(key)) => log.try_insert(key, v),
                None => {},
            },
        }
    }

    /// Adds a piece of metadata that logs of all sources have.
    pub fn insert_vector_metadata(
        self,
        log: &mut LogEvent,
        legacy_key: &Option<Vec<String>>,
        path: &Vec<String>,
        v: EventValue,
    )
        ensures
            final(log)@ == vector_noted(
                self,
                old(log)@,
                key_view(*legacy_key),
                value::path_view(path@),
                v@,
            ),
    {
        match self {
            LogNamespace::Vector => log.note(&path_join("vector", path), v),
            LogNamespace::Legacy => match legacy_key {
                Some(key) => log.try_insert(key, v),
                None => {},
            },
        }
    }

    /// Adds the kind of source that a log came from and the time at which it came.
    pub fn insert_standard_vector_source_metadata(
        self,
        log: &mut LogEvent,
        schema: &LogSchema,
        now: Timestamp,
    )
        ensures
            final(log)@ == standard_noted(self, schema@, old(log)@, now),
    {
        self.insert_vector_metadata(
            log,
            &schema.source_type_key,
            &path_of("source_type"),
            EventValue::text(NAME),
        );
        self.insert_vector_metadata(
            log,
            &schema.timestamp_key,
            &path_of("ingest_timestamp"),
            EventValue::Timestamp(now),
        );
    }
}

} // verus!
