//! The settings of the source, and what it tells about itself.
use vstd::prelude::*;

use crate::events::{CHANNEL, INDEX, SOURCE, SOURCETYPE};
use crate::log_event;
use crate::log_event::{copy_key, path_of, LogNamespace, LogSchema, SchemaView, NAME};
use crate::value;

verus! {

/// An address to listen on.
#[derive(Clone, Copy, Debug, PartialEq, Eq, Structural)]
pub enum SocketAddress {
    V4 { ipv4: u32, port: u16 },
    V6 { ipv6: u128, port: u16, flowinfo: u32, scope_id: u32 },
}

/// Configuration for the `splunk_hec_full` source.
///
/// Full-featured Splunk HEC receiver with token binding, URL query authentication,
/// raw endpoint metadata extraction, and transparent forwarding support.
#[derive(Debug)]
pub struct SplunkHecFullConfig {
    /// The socket address to listen for connections on.
    ///
    /// The address _must_ include a port.
    pub address: SocketAddress,
    /// Optional authorization token.
    ///
    /// If supplied, incoming requests must supply this token in the `Authorization` header, just as
    /// a client would if it was communicating with the Splunk HEC endpoint directly.
    ///
    /// If _not_ supplied, the `Authorization` header is ignored and requests are not authenticated.
    pub token: Option<String>,
    /// A list of valid authorization tokens.
    ///
    /// If supplied, incoming requests must supply one of these tokens in the `Authorization`
    /// header, just as a client would if it was communicating with the Splunk HEC endpoint
    /// directly.
    ///
    /// If _not_ supplied, the `Authorization` header is ignored and requests are not authenticated.
    pub valid_tokens: Option<Vec<String>>,
    /// Whether or not to forward the Splunk HEC authentication token with events.
    ///
    /// If set to `true`, when incoming requests contain a Splunk HEC token, the token used is kept
    /// in the event metadata and preferentially used if the event is sent to a Splunk HEC sink.
    pub store_hec_token: bool,
    /// Whether delivery is acknowledged by id, where that is set.
    pub acknowledgements: Option<bool>,
    /// The namespace to use for logs. This overrides the global settings.
    pub log_namespace: Option<bool>,
    /// Whether to allow authentication via URL query parameter `?token=`.
    ///
    /// When enabled, clients can pass the HEC token as a URL query parameter
    /// instead of (or in addition to) the `Authorization` header.
    /// Header token takes precedence over URL token when both are present.
    /// URL token is only used when the header is missing.
    pub allow_query_string_auth: bool,
    /// Automatically write metadata fields (index, sourcetype, source) as
    /// event-level fields without the `splunk_` prefix, in addition to the
    /// standard prefixed fields.
    ///
    /// This enables zero-config transparent forwarding to a `splunk_hec_logs` sink
    /// when the sink uses templates like `index: "{{ index }}"`.
    pub auto_forward_metadata: bool,
    /// Fix bare string events in the Vector log namespace.
    ///
    /// When enabled, string events (e.g., `{"event": "hello"}`) are wrapped
    /// as `{"message": "hello"}` instead of being stored as raw bytes.
    /// This prevents serialization issues where bare strings render as `{"event":{}}`.
    pub fix_bare_string_events: bool,
    /// Whether to require a channel ID on the raw endpoint.
    ///
    /// Splunk HEC requires a channel for the raw endpoint, but some legacy
    /// clients may not send one. Set to `false` to accept raw events without a channel.
    /// When false, events without a channel will have an auto-generated channel ID.
    pub raw_require_channel: bool,
    /// Whether to split raw endpoint body by newlines into multiple events.
    ///
    /// When enabled, raw endpoint requests with multiline bodies are split
    /// by newline characters (`\n`) into separate events, matching Splunk's
    /// LINE_BREAKER behavior. Empty lines are skipped.
    ///
    /// When disabled (default), the entire raw body is treated as a single event.
    pub raw_line_splitting: bool,
}

/// What a setting is that is on unless it is set.
pub fn default_true() -> (b: bool)
    ensures
        b,
{
    true
}

/// What a setting is that is off unless it is set.
pub fn default_false() -> (b: bool)
    ensures
        !b,
{
    false
}

/// Port 8088 on every IPv4 interface.
pub fn default_socket_address() -> (address: SocketAddress)
    ensures
        address == (SocketAddress::V4 { ipv4: 0, port: 8088 }),
{
    SocketAddress::V4 { ipv4: 0, port: 8088 }
}

impl Default for SplunkHecFullConfig {
    fn default() -> (config: Self)
        ensures
            config == (SplunkHecFullConfig {
                address: SocketAddress::V4 { ipv4: 0, port: 8088 },
                token: None,
                valid_tokens: None,
                store_hec_token: false,
                acknowledgements: None,
                log_namespace: None,
                allow_query_string_auth: false,
                auto_forward_metadata: true,
                fix_bare_string_events: true,
                raw_require_channel: true,
                raw_line_splitting: false,
            }),
    {
        SplunkHecFullConfig {
            address: default_socket_address(),
            token: None,
            valid_tokens: None,
            store_hec_token: false,
            acknowledgements: None,
            log_namespace: None,
            allow_query_string_auth: default_false(),
            auto_forward_metadata: default_true(),
            fix_bare_string_events: default_true(),
            raw_require_channel: default_true(),
            raw_line_splitting: false,
        }
    }
}

/// What a value may be.
#[derive(Clone, Copy, Debug, PartialEq, Eq, Structural)]
pub enum Kind {
    Bytes,
    Timestamp,
    BytesOrUndefined,
    BytesOrObject,
    ObjectOrArrayOrUndefined,
    /// An object with any fields.
    AnyObject,
}

/// What a field stands for.
#[derive(Clone, Copy, Debug, PartialEq, Eq, Structural)]
pub enum Meaning {
    Message,
    Host,
    Service,
}

/// Where a declared field is.
#[derive(Clone, Copy, Debug, PartialEq, Eq, Structural)]
pub enum Place {
    Event,
    Metadata,
}

/// A field that events of the source have.
#[derive(Debug)]
pub struct DeclaredField {
    pub place: Place,
    pub path: Vec<String>,
    pub kind: Kind,
    pub meaning: Option<Meaning>,
}

/// A declared field with its path as a sequence of names.
pub struct DeclaredView {
    pub place: Place,
    pub path: Seq<Seq<char>>,
    pub kind: Kind,
    pub meaning: Option<Meaning>,
}

impl View for DeclaredField {
    type V = DeclaredView;

    open spec fn view(&self) -> DeclaredView {
        DeclaredView {
            place: self.place,
            path: value::path_view(self.path@),
            kind: self.kind,
            meaning: self.meaning,
        }
    }
}

/// What the source puts out: logs of a namespace, of a kind and with a meaning as a whole, and
/// with these fields.
#[derive(Debug)]
pub struct SourceOutput {
    pub log_namespace: LogNamespace,
    pub kind: Kind,
    pub meaning: Option<Meaning>,
    pub fields: Vec<DeclaredField>,
}

/// Something of the machine that the source takes for itself.
#[derive(Clone, Copy, Debug, PartialEq, Eq, Structural)]
pub enum Resource {
    Tcp(SocketAddress),
}

/// The declared fields as views.
pub open spec fn fields_view(fields: Seq<DeclaredField>) -> Seq<DeclaredView> {
    fields.map_values(|f: DeclaredField| f@)
}

/// The declaration of a piece of metadata: in the Vector namespace below a prefix in the metadata,
/// in the Legacy namespace at its legacy key, if it has one.
pub open spec fn declared(
    namespace: LogNamespace,
    prefix: Seq<char>,
    legacy_key: Option<Seq<Seq<char>>>,
    name: Seq<char>,
    kind: Kind,
    meaning: Option<Meaning>,
) -> Seq<DeclaredView> {
    match (namespace, legacy_key) {
        (LogNamespace::Vector, _) => seq![
            DeclaredView { place: Place::Metadata, path: seq![prefix, name], kind, meaning },
        ],
        (LogNamespace::Legacy, Some(path)) => seq![
            DeclaredView { place: Place::Event, path, kind, meaning },
        ],
        (LogNamespace::Legacy, None) => Seq::empty(),
    }
}

/// The fields that are declared of the event itself.
pub open spec fn event_fields(namespace: LogNamespace, schema: SchemaView) -> Seq<DeclaredView> {
    match namespace {
        LogNamespace::Vector => Seq::empty(),
        LogNamespace::Legacy => seq![
            DeclaredView {
                place: Place::Event,
                path: seq!["line"@],
                kind: Kind::ObjectOrArrayOrUndefined,
                meaning: None,
            },
        ] + match schema.message_key {
            Some(path) => seq![
                DeclaredView {
                    place: Place::Event,
                    path,
                    kind: Kind::BytesOrUndefined,
                    meaning: Some(Meaning::Message),
                },
            ],
            None => Seq::empty(),
        },
    }
}

/// All the fields that are declared.
pub open spec fn declared_fields(namespace: LogNamespace, schema: SchemaView) -> Seq<
    DeclaredView,
> {
    event_fields(namespace, schema) + declared(
        namespace,
        "vector"@,
        schema.source_type_key,
        "source_type"@,
        Kind::Bytes,
        None,
    ) + declared(
        namespace,
        "vector"@,
        schema.timestamp_key,
        "ingest_timestamp"@,
        Kind::Timestamp,
        None,
    ) + declared(
        namespace,
        NAME@,
        schema.host_key,
        "host"@,
        Kind::Bytes,
        Some(Meaning::Host),
    ) + declared(namespace, NAME@, Some(seq![CHANNEL@]), "channel"@, Kind::Bytes, None) + declared(
        namespace,
        NAME@,
        Some(seq![INDEX@]),
        "index"@,
        Kind::Bytes,
        None,
    ) + declared(
        namespace,
        NAME@,
        Some(seq![SOURCE@]),
        "source"@,
        Kind::Bytes,
        Some(Meaning::Service),
    ) + declared(
        namespace,
        NAME@,
        Some(seq![SOURCETYPE@]),
        "sourcetype"@,
        Kind::Bytes,
        None,
    )
}

/// The namespace that the settings choose over the global one.
pub open spec fn chosen_namespace(
    setting: Option<bool>,
    global_log_namespace: LogNamespace,
) -> LogNamespace {
    match setting {
        Some(true) => LogNamespace::Vector,
        Some(false) => LogNamespace::Legacy,
        None => global_log_namespace,
    }
}

/// Declares a piece of metadata.
fn declare(
    fields: &mut Vec<DeclaredField>,
    namespace: LogNamespace,
    prefix: &str,
    legacy_key: Option<Vec<String>>,
    name: &str,
    kind: Kind,
    meaning: Option<Meaning>,
)
    ensures
        fields_view(final(fields)@) == fields_view(old(fields)@) + declared(
            namespace,
            prefix@,
            log_event::key_view(legacy_key),
            name@,
            kind,
            meaning,
        ),
{
    let ghost before = fields@;
    match namespace {
        LogNamespace::Vector => {
            let mut path: Vec<String> = Vec::new();
            path.push(prefix.to_owned());
            path.push(name.to_owned());
            assert(value::path_view(path@) =~= seq![prefix@, name@]);
            fields.push(DeclaredField { place: Place::Metadata, path, kind, meaning });
        },
        LogNamespace::Legacy => match legacy_key {
            Some(path) => {
                fields.push(DeclaredField { place: Place::Event, path, kind, meaning });
            },
            None => {},
        },
    }
    assert(fields_view(fields@) =~= fields_view(before) + declared(
        namespace,
        prefix@,
        log_event::key_view(legacy_key),
        name@,
        kind,
        meaning,
    ));
}

impl SplunkHecFullConfig {
    /// What the source puts out.
    pub fn outputs(&self, schema: &LogSchema, global_log_namespace: LogNamespace) -> (output:
        SourceOutput)
        ensures
            output.log_namespace == chosen_namespace(self.log_namespace, global_log_namespace),
            output.kind == match output.log_namespace {
                LogNamespace::Legacy => Kind::AnyObject,
                LogNamespace::Vector => Kind::BytesOrObject,
            },
            output.meaning == match output.log_namespace {
                LogNamespace::Legacy => None,
                LogNamespace::Vector => Some(Meaning::Message),
            },
            fields_view(output.fields@) == declared_fields(output.log_namespace, schema@),
    {
        let namespace = global_log_namespace.merge(self.log_namespace);
        let mut fields: Vec<DeclaredField> = Vec::new();
        let (kind, meaning) = match namespace {
            LogNamespace::Legacy => {
                fields.push(
                    DeclaredField {
                        place: Place::Event,
                        path: path_of("line"),
                        kind: Kind::ObjectOrArrayOrUndefined,
                        meaning: None,
                    },
                );
                match copy_key(&schema.message_key) {
                    Some(path) => {
                        fields.push(
                            DeclaredField {
                                place: Place::Event,
                                path,
                                kind: Kind::BytesOrUndefined,
                                meaning: Some(Meaning::Message),
                            },
                        );
                    },
                    None => {},
                }
                (Kind::AnyObject, None)
            },
            LogNamespace::Vector => (Kind::BytesOrObject, Some(Meaning::Message)),
        };
        assert(fields_view(fields@) =~= event_fields(namespace, schema@));
        declare(
            &mut fields,
            namespace,
            "vector",
            copy_key(&schema.source_type_key),
            "source_type",
            Kind::Bytes,
            None,
        );
        declare(
            &mut fields,
            namespace,
            "vector",
            copy_key(&schema.timestamp_key),
            "ingest_timestamp",
            Kind::Timestamp,
            None,
        );
        declare(
            &mut fields,
            namespace,
            NAME,
            copy_key(&schema.host_key),
            "host",
            Kind::Bytes,
            Some(Meaning::Host),
        );
        declare(
            &mut fields,
            namespace,
            NAME,
            Some(path_of(CHANNEL)),
            "channel",
            Kind::Bytes,
            None,
        );
        declare(&mut fields, namespace, NAME, Some(path_of(INDEX)), "index", Kind::Bytes, None);
        declare(
            &mut fields,
            namespace,
            NAME,
            Some(path_of(SOURCE)),
            "source",
            Kind::Bytes,
            Some(Meaning::Service),
        );
        declare(
            &mut fields,
            namespace,
            NAME,
            Some(path_of(SOURCETYPE)),
            "sourcetype",
            Kind::Bytes,
            None,
        );
        SourceOutput { log_namespace: namespace, kind, meaning, fields }
    }

    /// What the source takes for itself.
    pub fn resources(&self) -> (resources: Vec<Resource>)
        ensures
            resources@ == seq![Resource::Tcp(self.address)],
    {
        let mut resources: Vec<Resource> = Vec::new();
        resources.push(Resource::Tcp(self.address));
        resources
    }

    /// Whether the source can acknowledge delivery.
    pub fn can_acknowledge(&self) -> (b: bool)
        ensures
            b,
    {
        true
    }
}

} // verus!
