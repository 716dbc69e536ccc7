//! Metadata that an event hands on to the events after it.
use vstd::prelude::*;

use crate::json;
use crate::json::{JsonValue, JsonView};
use crate::log_event;
use crate::log_event::{LegacyKey, LegacyKeyView, LogEvent, LogNamespace, LogView};
use crate::value;
use crate::value::{EventValue, ValueView};

verus! {

/// Maintains last known extracted value of field and uses it in the absence of field.
#[derive(Debug)]
pub struct DefaultExtractor {
    pub field: &'static str,
    pub to_field: Option<Vec<String>>,
    pub value: Option<EventValue>,
    pub log_namespace: LogNamespace,
}

/// An extractor with its values as views.
pub struct ExtractorView {
    pub field: Seq<char>,
    pub to_field: Option<Seq<Seq<char>>>,
    pub value: Option<ValueView>,
    pub log_namespace: LogNamespace,
}

/// The view of an optional value.
pub open spec fn maybe_view(v: Option<EventValue>) -> Option<ValueView> {
    match v {
        Some(v) => Some(v@),
        None => None,
    }
}

impl View for DefaultExtractor {
    type V = ExtractorView;

    open spec fn view(&self) -> ExtractorView {
        ExtractorView {
            field: self.field@,
            to_field: log_event::key_view(self.to_field),
            value: maybe_view(self.value),
            log_namespace: self.log_namespace,
        }
    }
}

/// The extractor after it has seen a JSON value: it keeps the text of its field, where there is
/// one, and what it had otherwise.
pub open spec fn extractor_after(extractor: ExtractorView, json: JsonView) -> ExtractorView {
    match json::field(json, extractor.field) {
        Some(JsonView::Text(s)) => ExtractorView { value: Some(value::text_value(s)), ..extractor },
        _ => extractor,
    }
}

/// The log with what an extractor holds.
pub open spec fn extracted(extractor: ExtractorView, log: LogView) -> LogView {
    match (extractor.value, extractor.to_field) {
        (Some(v), Some(key)) => log_event::source_noted(
            extractor.log_namespace,
            log,
            Some(LegacyKeyView::Overwrite(key)),
            key,
            v,
        ),
        _ => log,
    }
}

impl DefaultExtractor {
    /// An extractor that holds nothing yet.
    pub fn new(
        field: &'static str,
        to_field: Option<Vec<String>>,
        log_namespace: LogNamespace,
    ) -> (extractor: Self)
        ensures
            extractor@ == (ExtractorView {
                field: field@,
                to_field: log_event::key_view(to_field),
                value: None,
                log_namespace,
            }),
    {
        DefaultExtractor { field, to_field, value: None, log_namespace }
    }

    /// An extractor that starts with a value.
    pub fn new_with(
        field: &'static str,
        to_field: Option<Vec<String>>,
        value: Option<EventValue>,
        log_namespace: LogNamespace,
    ) -> (extractor: Self)
        ensures
            extractor@ == (ExtractorView {
                field: field@,
                to_field: log_event::key_view(to_field),
                value: maybe_view(value),
                log_namespace,
            }),
    {
        DefaultExtractor { field, to_field, value, log_namespace }
    }

    /// Takes the field from a JSON value, where it is a text, and adds what is held to the log.
    pub fn extract(&mut self, log: &mut LogEvent, json: &JsonValue)
        ensures
            final(self)@ == extractor_after(old(self)@, json@),
            final(log)@ == extracted(extractor_after(old(self)@, json@), old(log)@),
    {
        match json.get(self.field) {
            Some(JsonValue::Text(s)) => {
                self.value = Some(EventValue::text(s.as_str()));
            },
            _ => {},
        }
        match (&self.value, &self.to_field) {
            (Some(v), Some(key)) => {
                self.log_namespace.insert_source_metadata(
                    log,
                    Some(LegacyKey::Overwrite(key)),
                    key,
                    v.clone(),
                );
            },
            _ => {},
        }
    }
}

} // verus!
