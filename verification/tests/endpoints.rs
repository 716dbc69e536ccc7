use base64::prelude::{Engine as _, BASE64_STANDARD};
use chrono::{TimeZone, Utc};

use splunk_hec_full::config::SplunkHecFullConfig;
use splunk_hec_full::exchange::{
    event_acknowledged, event_delivered, event_split, raw_acknowledged, raw_delivered, Delivery,
    EventRequest, EventStep, RawRequest, RawStep,
};
use splunk_hec_full::log_event::{LogEvent, LogNamespace, LogSchema};
use splunk_hec_full::raw::RawQueryParams;
use splunk_hec_full::response::{Body, Reply};
use splunk_hec_full::routes::{route, Method, Route};
use splunk_hec_full::source::{EventQueryParams, HealthQueryParams, SplunkSource};
use splunk_hec_full::value::EventValue;

/// Splunk token
const TOKEN: &str = "token";

fn config() -> SplunkHecFullConfig {
    SplunkHecFullConfig {
        token: Some(TOKEN.to_string()),
        allow_query_string_auth: true,
        ..SplunkHecFullConfig::default()
    }
}

fn build(config: SplunkHecFullConfig) -> SplunkSource {
    SplunkSource::new(&config, LogNamespace::Legacy, false)
}

fn source() -> SplunkSource {
    build(config())
}

fn source_with_query_auth(
    token: Option<&str>,
    valid_tokens: Option<&[&str]>,
    store_hec_token: bool,
    allow_query_string_auth: bool,
) -> SplunkSource {
    build(SplunkHecFullConfig {
        token: token.map(String::from),
        valid_tokens: valid_tokens.map(|tokens| tokens.iter().map(|t| t.to_string()).collect()),
        store_hec_token,
        allow_query_string_auth,
        ..SplunkHecFullConfig::default()
    })
}

fn source_with_full_opts(raw_require_channel: bool, raw_line_splitting: bool) -> SplunkSource {
    build(SplunkHecFullConfig { raw_require_channel, raw_line_splitting, ..config() })
}

/// A request as a client would send it.
#[derive(Default)]
struct Call<'a> {
    authorization: Option<String>,
    channel: Option<&'a str>,
    query: &'a [(&'a str, &'a str)],
    body: &'a str,
}

fn param(query: &[(&str, &str)], name: &str) -> Option<String> {
    query.iter().find(|(n, _)| *n == name).map(|(_, v)| v.to_string())
}

fn split(bits: u64) -> (i64, u32) {
    let t = f64::from_bits(bits);
    (t.floor() as i64, (t.fract() * 1000.0 * 1000.0 * 1000.0) as u32)
}

/// Sends to the event endpoint, and gives the answer and the events that were sent on.
fn send_event(source: &SplunkSource, call: Call) -> (Reply, Vec<LogEvent>) {
    assert_eq!(route(Method::Post, "/services/collector/event"), Route::Event);
    let schema = LogSchema::default();
    let request = EventRequest {
        authorization: call.authorization,
        url_token: param(call.query, "token"),
        channel_header: call.channel.map(String::from),
        params: EventQueryParams {
            channel: param(call.query, "channel"),
            token: param(call.query, "token"),
            auto_extract_timestamp: param(call.query, "auto_extract_timestamp"),
        },
        remote: Some("127.0.0.1:40000".to_string()),
        forwarded_for: None,
        encoding: None,
        body: call.body.as_bytes().to_vec(),
    };
    let mut step = source.event_service(request);
    let mut sent = Vec::new();
    loop {
        step = match step {
            EventStep::AckId { pending, .. } => event_acknowledged(pending, Ok(0)),
            EventStep::Split { doubles, pending, ack_id } => {
                let splits = doubles.iter().map(|d| d.map_or((0, 0), split)).collect();
                event_split(pending, &schema, &splits, ack_id)
            }
            EventStep::Send { events, error, ack_id } => {
                sent = events;
                EventStep::Respond(event_delivered(error, Delivery::Accepted, ack_id))
            }
            EventStep::Respond(reply) => return (reply, sent),
            EventStep::OutOfCalendar => panic!("invalid timestamp"),
        };
    }
}

/// Sends to the raw endpoint, and gives the answer and the events that were sent on.
fn send_raw(source: &SplunkSource, call: Call) -> (Reply, Vec<LogEvent>) {
    assert_eq!(route(Method::Post, "/services/collector/raw"), Route::Raw);
    let schema = LogSchema::default();
    let time = param(call.query, "time");
    let time_split = time
        .as_deref()
        .and_then(|t| t.parse::<f64>().ok())
        .map(|t| (t.floor() as i64, (t.fract() * 1_000_000_000.0) as u32));
    let request = RawRequest {
        authorization: call.authorization,
        url_token: param(call.query, "token"),
        channel_header: call.channel.map(String::from),
        params: RawQueryParams {
            channel: param(call.query, "channel"),
            index: param(call.query, "index"),
            sourcetype: param(call.query, "sourcetype"),
            source: param(call.query, "source"),
            host: param(call.query, "host"),
            time,
            token: param(call.query, "token"),
        },
        time_split,
        remote: Some("127.0.0.1:40000".to_string()),
        forwarded_for: None,
        encoding: None,
        body: call.body.as_bytes().to_vec(),
    };
    let mut step = source.raw_service(&schema, request);
    let mut sent = Vec::new();
    loop {
        step = match step {
            RawStep::AckId { pending, .. } => raw_acknowledged(pending, &schema, Ok(0)),
            RawStep::Send { events, ack_id } => {
                sent = events;
                RawStep::Respond(raw_delivered(Delivery::Accepted, ack_id))
            }
            RawStep::Respond(reply) => return (reply, sent),
        };
    }
}

fn send_req(source: &SplunkSource, body: &str, channel: &str) -> (Reply, Vec<LogEvent>) {
    send_event(
        source,
        Call {
            authorization: Some(format!("Splunk {TOKEN}")),
            channel: Some(channel),
            body,
            ..Call::default()
        },
    )
}

fn health(source: &SplunkSource, query: &[(&str, &str)]) -> Reply {
    assert_eq!(route(Method::Get, "/services/collector/health"), Route::Health);
    source.health_service(&HealthQueryParams {
        token: param(query, "token"),
        ack: param(query, "ack"),
    })
}

fn code(reply: &Reply) -> u8 {
    match &reply.body {
        Body::Outcome(response) => response.code(),
        Body::Health(_, code) => *code,
        other => panic!("no code in {other:?}"),
    }
}

fn to_string_lossy(value: &EventValue) -> String {
    match value {
        EventValue::Bytes(bytes) => String::from_utf8_lossy(bytes).into_owned(),
        EventValue::Boolean(b) => b.to_string(),
        EventValue::Timestamp(t) => {
            Utc.timestamp_opt(t.secs, t.nanos).single().unwrap().to_rfc3339()
        }
        other => panic!("unexpected {other:?}"),
    }
}

fn text(log: &LogEvent, name: &str) -> String {
    to_string_lossy(log.get(name).unwrap())
}

#[test]
fn url_token_defaults_disabled() {
    let source = source_with_query_auth(
        Some(TOKEN),
        None,
        false,
        SplunkHecFullConfig::default().allow_query_string_auth,
    );
    let (reply, _) = send_event(
        &source,
        Call {
            channel: Some("test-channel"),
            query: &[("token", TOKEN)],
            body: r#"{"event":"hello via url token"}"#,
            ..Call::default()
        },
    );
    assert_eq!(reply.status, 401);
    assert_eq!(code(&reply), 2);
}

#[test]
fn url_used_when_header_missing() {
    let source = source_with_query_auth(Some(TOKEN), None, false, true);
    let (reply, events) = send_event(
        &source,
        Call {
            channel: Some("test-channel"),
            query: &[("token", TOKEN)],
            body: r#"{"event":"hello via url token"}"#,
            ..Call::default()
        },
    );
    assert_eq!(reply.status, 200);
    assert_eq!(events.len(), 1);
}

#[test]
fn header_priority_over_url_when_enabled() {
    let source =
        source_with_query_auth(None, Some(&["url-token", "header-token"]), true, true);
    let (reply, events) = send_event(
        &source,
        Call {
            authorization: Some("Splunk header-token".to_string()),
            channel: Some("test-channel"),
            query: &[("token", "wrong-token")],
            body: r#"{"event":"precedence test"}"#,
        },
    );
    assert_eq!(reply.status, 200);
    // The stored token should be the header token (header has precedence)
    assert_eq!(events[0].hec_token.as_deref().unwrap(), "header-token");
}

#[test]
fn url_ignored_when_disabled() {
    let source = source_with_query_auth(Some(TOKEN), None, false, false);
    let (reply, _) = send_event(
        &source,
        Call {
            channel: Some("test-channel"),
            query: &[("token", TOKEN)],
            body: r#"{"event":"url token ignored"}"#,
            ..Call::default()
        },
    );
    assert_eq!(reply.status, 401);
    assert_eq!(code(&reply), 2);
}

#[test]
fn test_raw_endpoint_url_metadata() {
    let (reply, events) = send_raw(
        &source(),
        Call {
            authorization: Some(format!("Splunk {TOKEN}")),
            query: &[
                ("channel", "test-ch"),
                ("index", "my_index"),
                ("sourcetype", "my_type"),
                ("source", "my_source"),
            ],
            body: "raw event data",
            ..Call::default()
        },
    );
    assert_eq!(reply.status, 200);

    let log = &events[0];
    // Check that metadata was extracted from URL params
    assert_eq!(text(log, "splunk_index"), "my_index");
    assert_eq!(text(log, "splunk_sourcetype"), "my_type");
    assert_eq!(text(log, "splunk_source"), "my_source");
    // Auto-forward metadata should also set un-prefixed fields
    assert_eq!(text(log, "index"), "my_index");
    assert_eq!(text(log, "sourcetype"), "my_type");
    assert_eq!(text(log, "source"), "my_source");
}

#[test]
fn test_bare_string_fix() {
    let source = build(SplunkHecFullConfig {
        log_namespace: Some(true), // Vector namespace
        ..config()
    });
    let (reply, events) = send_req(&source, r#"{"event":"bare string event"}"#, "ch");
    assert_eq!(reply.status, 200);
    // With fix_bare_string_events=true, the string should be in the "message" field
    assert_eq!(text(&events[0], "message"), "bare string event");
}

#[test]
fn test_health_endpoint() {
    let reply = health(&source(), &[]);
    assert_eq!(reply.status, 200);
    assert!(matches!(reply.body, Body::Health("HEC is healthy", 17)));
}

#[test]
fn test_basic_event() {
    let (reply, events) = send_req(&source(), r#"{"event":"hello world"}"#, "test-channel");
    assert_eq!(reply.status, 200);
    assert_eq!(events.len(), 1);
}

#[test]
fn test_missing_auth() {
    let (reply, _) = send_event(
        &source(),
        Call { channel: Some("ch"), body: r#"{"event":"no auth"}"#, ..Call::default() },
    );
    assert_eq!(reply.status, 401);
}

#[test]
fn test_health_with_valid_token() {
    assert_eq!(health(&source(), &[("token", TOKEN)]).status, 200);
}

#[test]
fn test_health_with_invalid_token() {
    assert_eq!(health(&source(), &[("token", "bad-token")]).status, 400);
}

#[test]
fn test_health_with_ack_disabled() {
    assert_eq!(health(&source(), &[("ack", "true")]).status, 503);
}

#[test]
fn test_health_no_params() {
    let reply = health(&source(), &[]);
    assert_eq!(reply.status, 200);
    assert_eq!(code(&reply), 17);
}

#[test]
fn test_raw_without_channel_required() {
    let (reply, _) = send_raw(
        &source(),
        Call {
            authorization: Some(format!("Splunk {TOKEN}")),
            body: "raw data without channel",
            ..Call::default()
        },
    );
    assert_eq!(reply.status, 400); // Missing channel
}

#[test]
fn test_raw_without_channel_optional() {
    let (reply, events) = send_raw(
        &source_with_full_opts(false, false),
        Call {
            authorization: Some(format!("Splunk {TOKEN}")),
            body: "raw data without channel",
            ..Call::default()
        },
    );
    assert_eq!(reply.status, 200);
    assert_eq!(events.len(), 1);
    // The event should have an auto-generated channel
    assert!(events[0].get("splunk_channel").is_some());
}

#[test]
fn test_raw_endpoint_time_param() {
    let (reply, events) = send_raw(
        &source(),
        Call {
            authorization: Some(format!("Splunk {TOKEN}")),
            query: &[("channel", "ch1"), ("time", "1609459200")],
            body: "event with time",
            ..Call::default()
        },
    );
    assert_eq!(reply.status, 200);
    // Verify timestamp was set to 2021-01-01T00:00:00Z
    let ts_str = text(&events[0], "timestamp");
    assert!(
        ts_str.contains("2021-01-01"),
        "Expected timestamp containing 2021-01-01, got: {}",
        ts_str
    );
}

#[test]
fn test_raw_endpoint_time_param_float() {
    let (reply, events) = send_raw(
        &source(),
        Call {
            authorization: Some(format!("Splunk {TOKEN}")),
            query: &[("channel", "ch1"), ("time", "1609459200.123")],
            body: "event with float time",
            ..Call::default()
        },
    );
    assert_eq!(reply.status, 200);
    let ts_str = text(&events[0], "timestamp");
    assert!(
        ts_str.contains("2021-01-01"),
        "Expected timestamp containing 2021-01-01, got: {}",
        ts_str
    );
}

#[test]
fn test_event_auto_extract_timestamp_param() {
    let (reply, events) = send_event(
        &source(),
        Call {
            authorization: Some(format!("Splunk {TOKEN}")),
            channel: Some("ch1"),
            query: &[("auto_extract_timestamp", "true")],
            body: r#"{"event":"test auto extract"}"#,
        },
    );
    assert_eq!(reply.status, 200);
    assert_eq!(text(&events[0], "auto_extract_timestamp"), "true");
}

#[test]
fn test_event_no_auto_extract_timestamp() {
    let (reply, events) = send_req(&source(), r#"{"event":"no auto extract"}"#, "ch1");
    assert_eq!(reply.status, 200);
    assert!(events[0].get("auto_extract_timestamp").is_none());
}

#[test]
fn test_raw_with_url_metadata_preserves_body() {
    let (reply, events) = send_raw(
        &source_with_full_opts(false, false),
        Call {
            authorization: Some(format!("Splunk {TOKEN}")),
            query: &[
                ("channel", "ch1"),
                ("index", "test_idx"),
                ("sourcetype", "test_type"),
                ("source", "test_src"),
                ("host", "test_host"),
            ],
            body: "THIS IS THE RAW TEXT",
            ..Call::default()
        },
    );
    assert_eq!(reply.status, 200);
    let log = &events[0];
    // Raw text MUST be preserved in the "message" field
    assert_eq!(
        text(log, "message"),
        "THIS IS THE RAW TEXT",
        "Raw text body must be preserved when URL metadata params are present"
    );
    // URL metadata must also be present
    assert_eq!(text(log, "index"), "test_idx");
    assert_eq!(text(log, "sourcetype"), "test_type");
    assert_eq!(text(log, "source"), "test_src");
}

#[test]
fn test_raw_without_url_metadata_preserves_body() {
    let (reply, events) = send_raw(
        &source_with_full_opts(false, false),
        Call {
            authorization: Some(format!("Splunk {TOKEN}")),
            query: &[("channel", "ch1")],
            body: "simple raw text",
            ..Call::default()
        },
    );
    assert_eq!(reply.status, 200);
    // With fix_bare_string_events=true, raw text should be in "message" field
    assert_eq!(text(&events[0], "message"), "simple raw text");
}

#[test]
fn test_empty_string_event_rejected() {
    let (reply, _) = send_req(&source(), r#"{"event":""}"#, "ch1");
    assert_eq!(reply.status, 400);
    assert_eq!(code(&reply), 13, "Empty string event should return code 13");
}

#[test]
fn test_empty_object_event_rejected() {
    let (reply, _) = send_req(&source(), r#"{"event":{}}"#, "ch1");
    assert_eq!(reply.status, 400);
    assert_eq!(code(&reply), 13, "Empty object event should return code 13");
}

#[test]
fn test_empty_raw_body_rejected() {
    let (reply, _) = send_raw(
        &source_with_full_opts(false, false),
        Call {
            authorization: Some(format!("Splunk {TOKEN}")),
            query: &[("channel", "ch1")],
            body: "",
            ..Call::default()
        },
    );
    assert_eq!(reply.status, 400, "Empty raw body should be rejected");
}

#[test]
fn test_basic_auth_rfc1945() {
    let cred = BASE64_STANDARD.encode(format!("x:{TOKEN}"));
    let (reply, events) = send_event(
        &source(),
        Call {
            authorization: Some(format!("Basic {cred}")),
            channel: Some("ch1"),
            body: r#"{"event":"basic auth works"}"#,
            ..Call::default()
        },
    );
    assert_eq!(reply.status, 200, "Basic auth (RFC 1945) should be accepted");
    assert_eq!(events.len(), 1);
}

#[test]
fn test_basic_auth_invalid_rejected() {
    let cred = BASE64_STANDARD.encode("x:invalid-token");
    let (reply, _) = send_event(
        &source(),
        Call {
            authorization: Some(format!("Basic {cred}")),
            channel: Some("ch1"),
            body: r#"{"event":"should fail"}"#,
            ..Call::default()
        },
    );
    assert_eq!(reply.status, 401);
}

#[test]
fn test_batch_mixed_string_object_events() {
    let batch =
        r#"{"event":"string event"}{"event":{"key":"object event"}}{"event":"another string"}"#;
    let (reply, events) = send_req(&source(), batch, "ch1");
    assert_eq!(reply.status, 200);
    assert_eq!(events.len(), 3);

    // First event: string should have "message" field
    assert!(
        events[0].get("message").is_some(),
        "String event should have 'message' field"
    );
    // Second event: object should have "key" field
    assert_eq!(text(&events[1], "key"), "object event");
    // Third event: string should have "message" field
    assert!(
        events[2].get("message").is_some(),
        "String event should have 'message' field"
    );
}

#[test]
fn test_integer_event_preserved() {
    let (reply, events) = send_req(
        &source(),
        r#"{"event": 42, "index": "test_idx", "sourcetype": "metric"}"#,
        "ch1",
    );
    assert_eq!(reply.status, 200);
    let log = &events[0];
    // Integer should be wrapped in "message" field to prevent metadata corruption
    let msg = log.get("message").expect("Integer event should be wrapped in 'message' field");
    assert_eq!(msg, &EventValue::Integer(42), "Integer value should be preserved as 42");
    // Metadata should also be present
    assert!(log.get("index").is_some(), "index metadata should be present");
}

#[test]
fn test_float_event_preserved() {
    let (reply, events) =
        send_req(&source(), r#"{"event": 3.14, "index": "metrics"}"#, "ch1");
    assert_eq!(reply.status, 200);
    let msg =
        events[0].get("message").expect("Float event should be wrapped in 'message' field");
    // Float 3.14 should be preserved
    match msg {
        EventValue::Float(f) => assert!((f64::from_bits(*f) - 3.14).abs() < 0.001),
        _ => panic!("Expected float value, got {:?}", msg),
    }
}

#[test]
fn test_boolean_event_preserved() {
    let (reply, events) = send_req(&source(), r#"{"event": true, "index": "flags"}"#, "ch1");
    assert_eq!(reply.status, 200);
    let msg =
        events[0].get("message").expect("Boolean event should be wrapped in 'message' field");
    assert_eq!(msg, &EventValue::Boolean(true), "Boolean true should be preserved");
}

#[test]
fn test_array_event_preserved() {
    let (reply, events) =
        send_req(&source(), r#"{"event": [1, "two", 3.0], "index": "arrays"}"#, "ch1");
    assert_eq!(reply.status, 200);
    let msg =
        events[0].get("message").expect("Array event should be wrapped in 'message' field");
    assert!(matches!(msg, EventValue::Array(_)), "Array value should be preserved as array");
}

#[test]
fn test_null_event_rejected() {
    let (reply, _) = send_req(&source(), r#"{"event": null}"#, "ch1");
    assert_eq!(reply.status, 400, "Null event should be rejected");
    assert_eq!(code(&reply), 13, "Null event should return code 13");
}

#[test]
fn test_empty_array_event_rejected() {
    let (reply, _) = send_req(&source(), r#"{"event": []}"#, "ch1");
    assert_eq!(reply.status, 400, "Empty array event should be rejected");
    assert_eq!(code(&reply), 13, "Empty array event should return code 13");
}

#[test]
fn test_batch_all_types_preserved() {
    let batch = r#"{"event":"string val"}{"event":42}{"event":true}{"event":{"k":"v"}}{"event":[1,2]}"#;
    let (reply, events) = send_req(&source(), batch, "ch1");
    assert_eq!(reply.status, 200);
    assert_eq!(events.len(), 5, "All 5 batch events should be received");

    // String -> message
    assert!(events[0].get("message").is_some());
    // Integer -> message
    assert_eq!(events[1].get("message").unwrap(), &EventValue::Integer(42));
    // Boolean -> message
    assert_eq!(events[2].get("message").unwrap(), &EventValue::Boolean(true));
    // Object -> keys at root
    assert_eq!(text(&events[3], "k"), "v");
    // Array -> message
    assert!(matches!(events[4].get("message").unwrap(), EventValue::Array(_)));
}

#[test]
fn test_raw_line_splitting() {
    let (reply, events) = send_raw(
        &source_with_full_opts(false, true),
        Call {
            authorization: Some(format!("Splunk {TOKEN}")),
            query: &[("channel", "ch1")],
            body: "line_one\nline_two\nline_three",
            ..Call::default()
        },
    );
    assert_eq!(reply.status, 200);
    assert_eq!(events.len(), 3, "Multiline raw body should produce 3 events");
    assert_eq!(text(&events[0], "message"), "line_one");
    assert_eq!(text(&events[1], "message"), "line_two");
    assert_eq!(text(&events[2], "message"), "line_three");
}

#[test]
fn test_raw_line_splitting_with_metadata() {
    let (reply, events) = send_raw(
        &source_with_full_opts(false, true),
        Call {
            authorization: Some(format!("Splunk {TOKEN}")),
            query: &[("channel", "ch1"), ("index", "split_idx"), ("sourcetype", "split_type")],
            body: "alpha\nbeta",
            ..Call::default()
        },
    );
    assert_eq!(reply.status, 200);
    assert_eq!(events.len(), 2);

    // Both events should have the URL metadata applied
    for (i, log) in events.iter().enumerate() {
        assert_eq!(text(log, "index"), "split_idx", "Event {i} should have index metadata");
        assert_eq!(
            text(log, "sourcetype"),
            "split_type",
            "Event {i} should have sourcetype metadata"
        );
    }
    assert_eq!(text(&events[0], "message"), "alpha");
    assert_eq!(text(&events[1], "message"), "beta");
}

#[test]
fn test_raw_line_splitting_disabled() {
    let (reply, events) = send_raw(
        &source_with_full_opts(false, false),
        Call {
            authorization: Some(format!("Splunk {TOKEN}")),
            query: &[("channel", "ch1")],
            body: "line_A\nline_B\nline_C",
            ..Call::default()
        },
    );
    assert_eq!(reply.status, 200);
    assert_eq!(events.len(), 1, "With splitting disabled, should be 1 event");
    // The single event should contain all lines
    let msg = text(&events[0], "message");
    assert!(msg.contains("line_A"), "Single event should contain all text");
    assert!(msg.contains("line_C"));
}
