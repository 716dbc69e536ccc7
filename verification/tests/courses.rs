use splunk_hec_full::config::SplunkHecFullConfig;
use splunk_hec_full::event_time::{event_time, read_time, EventTime, TimeReading};
use splunk_hec_full::events::{times_in_calendar, EventIterator, EventIteratorGenerator, Input};
use splunk_hec_full::exchange::{
    event_acknowledged, event_delivered, event_split, raw_acknowledged, raw_delivered, Delivery,
    EventRequest, EventStep, RawRequest, RawStep,
};
use splunk_hec_full::json::{parse_values, Number};
use splunk_hec_full::log_event::{LogEvent, LogNamespace, LogSchema};
use splunk_hec_full::raw::{raw_event, raw_events_split, time_of_query, RawContext, RawQueryParams};
use splunk_hec_full::response::{ApiError, Body, HecResponseMetadata, Reply};
use splunk_hec_full::source::{EventQueryParams, SplunkSource};
use splunk_hec_full::timestamp::Timestamp;
use splunk_hec_full::value::EventValue;

fn some(s: &str) -> Option<String> {
    Some(s.to_string())
}

fn source(config: SplunkHecFullConfig, acknowledgements: bool) -> SplunkSource {
    SplunkSource::new(&config, LogNamespace::Legacy, acknowledgements)
}

fn request(body: &str) -> EventRequest {
    EventRequest {
        authorization: some("Splunk tok"),
        url_token: None,
        channel_header: some("ch"),
        params: EventQueryParams { channel: None, token: None, auto_extract_timestamp: None },
        remote: some("10.0.0.1:5000"),
        forwarded_for: None,
        encoding: None,
        body: body.as_bytes().to_vec(),
    }
}

fn split(bits: u64) -> (i64, u32) {
    let t = f64::from_bits(bits);
    (t.floor() as i64, (t.fract() * 1000.0 * 1000.0 * 1000.0) as u32)
}

/// Goes through with a request to the event endpoint.
fn run(source: &SplunkSource, request: EventRequest) -> (Reply, Vec<LogEvent>) {
    let schema = LogSchema::default();
    let mut step = source.event_service(request);
    let mut sent = Vec::new();
    loop {
        step = match step {
            EventStep::AckId { channel, pending } => {
                assert_eq!(channel, "ch");
                event_acknowledged(pending, Ok(11))
            }
            EventStep::Split { doubles, pending, ack_id } => {
                let splits = doubles.iter().map(|d| d.map_or((0, 0), split)).collect();
                event_split(pending, &schema, &splits, ack_id)
            }
            EventStep::Send { events, error, ack_id } => {
                sent = events;
                EventStep::Respond(event_delivered(error, Delivery::Accepted, ack_id))
            }
            EventStep::Respond(reply) => return (reply, sent),
            EventStep::OutOfCalendar => panic!("out of the calendar"),
        };
    }
}

fn run_default(body: &str) -> (Reply, Vec<LogEvent>) {
    run(&source(SplunkHecFullConfig::default(), false), request(body))
}

/// Code and event number of an answer.
fn told(reply: &Reply) -> (u8, Option<HecResponseMetadata>) {
    match &reply.body {
        Body::Outcome(response) => (response.code(), response.metadata),
        other => panic!("{other:?}"),
    }
}

fn bytes(s: &str) -> EventValue {
    EventValue::Bytes(s.as_bytes().to_vec())
}

#[test]
fn metadata_lasts_until_it_changes() {
    let (reply, events) = run_default(&concat_str(&[
        r#"{"event":"a","index":"one","host":"h1","time":1609459200}"#,
        r#"{"event":"b"}"#,
        r#"{"event":"c","index":"two","time":"1609459201.5"}"#,
        r#"{"event":"d","index":7}"#,
    ]));
    assert_eq!(reply.status, 200);
    let indexes: Vec<_> = events.iter().map(|e| e.get("splunk_index").unwrap()).collect();
    assert_eq!(indexes, [&bytes("one"), &bytes("one"), &bytes("two"), &bytes("two")]);
    for event in &events {
        assert_eq!(event.get("index"), event.get("splunk_index"));
        assert_eq!(event.get("host"), Some(&bytes("h1")));
        assert_eq!(event.get("source"), None);
    }
    let at = |secs, nanos| EventValue::Timestamp(Timestamp { secs, nanos });
    let times: Vec<_> = events.iter().map(|e| e.get("timestamp").unwrap().clone()).collect();
    assert_eq!(
        times,
        [
            at(1609459200, 0),
            at(1609459200, 0),
            at(1609459201, 500_000_000),
            at(1609459201, 500_000_000),
        ]
    );
}

fn concat_str(parts: &[&str]) -> String {
    parts.concat()
}

#[test]
fn an_event_has_what_comes_with_it() {
    let (_, events) = run_default(
        r#"{"event":"x","channel":"own","fields":{"splunk_source":1,"extra":[true]},"source":"s"}"#,
    );
    let log = &events[0];
    assert_eq!(log.get("splunk_channel"), Some(&bytes("own")));
    assert_eq!(log.get("extra"), Some(&EventValue::Array(vec![EventValue::Boolean(true)])));
    assert_eq!(log.get("splunk_source"), Some(&bytes("s")));
    assert_eq!(log.get("source"), Some(&bytes("s")));
    assert_eq!(log.get("source_type"), Some(&bytes("splunk_hec_full")));
    assert_eq!(log.get("host"), Some(&bytes("10.0.0.1:5000")));
    assert_eq!(log.hec_token, None);
    assert!(!log.notify);
}

#[test]
fn an_event_of_the_vector_namespace_keeps_metadata_beside_it() {
    let config = SplunkHecFullConfig {
        log_namespace: Some(true),
        auto_forward_metadata: false,
        fix_bare_string_events: false,
        store_hec_token: true,
        ..SplunkHecFullConfig::default()
    };
    let (_, events) = run(
        &source(config, false),
        EventRequest {
            forwarded_for: some("1.2.3.4"),
            ..request(r#"{"event":"bare","index":"i","fields":{"f":"v"},"time":-5}"#)
        },
    );
    let log = &events[0];
    assert_eq!(log.value, bytes("bare"));
    let own = log.metadata.get("splunk_hec_full").unwrap();
    assert_eq!(own.get("splunk_index"), Some(&bytes("i")));
    assert_eq!(own.get("splunk_channel"), Some(&bytes("ch")));
    assert_eq!(own.get("host"), Some(&bytes("1.2.3.4")));
    assert_eq!(own.get("f"), Some(&bytes("v")));
    assert_eq!(
        own.get("timestamp"),
        Some(&EventValue::Timestamp(Timestamp { secs: -5, nanos: 0 }))
    );
    let common = log.metadata.get("vector").unwrap();
    assert_eq!(common.get("source_type"), Some(&bytes("splunk_hec_full")));
    assert!(matches!(common.get("ingest_timestamp"), Some(EventValue::Timestamp(_))));
    assert_eq!(log.hec_token, some("tok"));
}

#[test]
fn a_line_is_the_message() {
    let (_, events) = run_default(&concat_str(&[
        r#"{"event":{"line":"text","k":1}}"#,
        r#"{"event":{"line":["not","text"],"k":2}}"#,
        r#"{"event":{"line":"text","message":"own"}}"#,
    ]));
    assert_eq!(events[0].get("message"), Some(&bytes("text")));
    assert_eq!(events[0].get("line"), None);
    assert_eq!(events[0].get("k"), Some(&EventValue::Integer(1)));
    assert_eq!(events[1].get("message"), None);
    assert_eq!(
        events[1].get("line"),
        Some(&EventValue::Array(vec![bytes("not"), bytes("text")]))
    );
    assert_eq!(events[2].get("message"), Some(&bytes("own")));
}

#[test]
fn the_first_error_ends_a_request() {
    let number = |n| Some(HecResponseMetadata::InvalidEventNumber(n));
    for (body, sent, code, event) in [
        ("", 0, 5, None),
        ("nonsense", 0, 6, number(0)),
        (r#"{"event":1}{"event":2}oops{"event":3}"#, 2, 6, number(2)),
        (r#"{"event":1}{"foo":2}"#, 1, 12, number(1)),
        (r#"{"event":1}{"event":null}"#, 1, 13, number(1)),
        (r#"[1]"#, 0, 12, number(0)),
        (r#"{"event":1,"time":"soon"}"#, 0, 6, number(0)),
        (r#"{"event":1,"time":18446744073709551615}"#, 0, 6, number(0)),
        (r#"{"event":"","time":"soon"}"#, 0, 13, number(0)),
    ] {
        let (reply, events) = run_default(body);
        assert_eq!(reply.status, 400, "{body}");
        assert_eq!(events.len(), sent, "{body}");
        assert_eq!(told(&reply), (code, event), "{body}");
    }
}

#[test]
fn requests_are_refused_in_order() {
    let config = SplunkHecFullConfig { token: some("tok"), ..SplunkHecFullConfig::default() };
    let on = source(config, true);
    let refused = |request: EventRequest| match on.event_service(request) {
        EventStep::Respond(reply) => reply.status,
        other => panic!("{other:?}"),
    };
    let bad = || EventRequest {
        authorization: None,
        channel_header: None,
        encoding: some("br"),
        ..request("")
    };
    assert_eq!(refused(bad()), 401);
    let bad = || EventRequest { authorization: some("Splunk tok"), ..bad() };
    assert_eq!(refused(bad()), 415);
    let bad = || EventRequest { encoding: some("gzip"), ..bad() };
    match on.event_service(bad()) {
        EventStep::Respond(reply) => assert_eq!(told(&reply), (10, None)),
        other => panic!("{other:?}"),
    }
    let bad = || EventRequest { channel_header: some("ch"), ..bad() };
    match on.event_service(bad()) {
        EventStep::Respond(reply) => {
            assert_eq!(reply.status, 400);
            assert!(matches!(reply.body, Body::Empty));
        }
        other => panic!("{other:?}"),
    }
}

#[test]
fn ids_are_asked_for_and_told() {
    let on = source(SplunkHecFullConfig::default(), true);
    let (reply, events) = run(&on, request(r#"{"event":1}"#));
    assert_eq!(told(&reply), (0, Some(HecResponseMetadata::AckId(11))));
    assert!(events[0].notify);
    match on.event_service(request(r#"{"event":1}"#)) {
        EventStep::AckId { pending, .. } => {
            match event_acknowledged(pending, Err(ApiError::ServiceUnavailable)) {
                EventStep::Respond(reply) => assert_eq!(told(&reply), (9, None)),
                other => panic!("{other:?}"),
            }
        }
        other => panic!("{other:?}"),
    }
    assert_eq!(event_delivered(None, Delivery::Closed, Some(1)).status, 503);
    assert_eq!(event_delivered(Some(ApiError::NoData), Delivery::Accepted, Some(1)).status, 400);
    assert_eq!(raw_delivered(Delivery::Closed, None).status, 503);
}

#[test]
fn times_are_read_and_split() {
    let items = parse_values(
        r#"{"time":5}{"time":-5}{"time":1.5}{"time":"7"}{"time":"x"}{"time":null}{}"#,
    );
    let readings: Vec<TimeReading> =
        items.iter().map(|i| read_time(i.as_ref().unwrap())).collect();
    assert_eq!(
        readings,
        [
            TimeReading::Number(Number::PosInt(5)),
            TimeReading::Number(Number::NegInt(-5)),
            TimeReading::Number(Number::Double(1.5_f64.to_bits())),
            TimeReading::Number(Number::PosInt(7)),
            TimeReading::Unreadable,
            TimeReading::Absent,
            TimeReading::Absent,
        ]
    );
    let times: Vec<EventTime> = readings.iter().map(|r| event_time(*r, (1, 2))).collect();
    assert_eq!(
        times,
        [
            EventTime::Stamp(5),
            EventTime::Instant { secs: -5, nanos: 0 },
            EventTime::Instant { secs: 1, nanos: 2 },
            EventTime::Stamp(7),
            EventTime::Unreadable,
            EventTime::Absent,
            EventTime::Absent,
        ]
    );
}

#[test]
fn times_out_of_the_calendar_are_found() {
    let inputs = |text: &str, secs: i64| -> Vec<Option<Input>> {
        parse_values(text)
            .into_iter()
            .map(|item| {
                item.map(|json| {
                    let time = event_time(read_time(&json), (secs, 0));
                    Input { json, time }
                })
            })
            .collect()
    };
    assert!(times_in_calendar(&inputs(r#"{"event":1,"time":1.5}"#, 1)));
    assert!(times_in_calendar(&inputs(r#"{"event":1,"time":1.5}"#, 8210266876799)));
    assert!(!times_in_calendar(&inputs(r#"{"event":1,"time":1.5}"#, 8210266876800)));
    assert!(times_in_calendar(&inputs(r#"{"event":1,"time":1.5}"#, -8334601228800)));
    assert!(!times_in_calendar(&inputs(r#"{"event":1,"time":1.5}"#, -8334601228801)));
    assert!(!times_in_calendar(&inputs(r#"{"event":1,"time":-9000000000000}"#, 0)));
    // Not needed after an error
    assert!(times_in_calendar(&inputs(r#"{"event":"","time":1.5}"#, i64::MAX)));
    assert!(times_in_calendar(&inputs(r#"{"event":""}{"event":1,"time":1.5}"#, i64::MAX)));
    assert!(!times_in_calendar(&inputs(r#"{"event":1}{"event":1,"time":1.5}"#, i64::MAX)));

    match source(SplunkHecFullConfig::default(), false)
        .event_service(request(r#"{"event":1,"time":1e300}"#))
    {
        EventStep::Split { doubles, pending, ack_id } => {
            assert_eq!(doubles, [Some(1e300_f64.to_bits())]);
            let splits = vec![split(doubles[0].unwrap())];
            assert!(matches!(
                event_split(pending, &LogSchema::default(), &splits, ack_id),
                EventStep::OutOfCalendar
            ));
        }
        other => panic!("{other:?}"),
    }
}

fn iterator(schema: &LogSchema, now: Timestamp) -> EventIterator {
    EventIterator::from(
        EventIteratorGenerator {
            channel: None,
            batch: false,
            token: None,
            log_namespace: LogNamespace::Legacy,
            remote: None,
            remote_addr: None,
            auto_forward_metadata: true,
            fix_bare_string_events: true,
            auto_extract_timestamp: false,
        },
        schema,
        now,
    )
}

fn item(text: &str, time: EventTime) -> Option<Input> {
    let json = parse_values(text).remove(0).unwrap();
    Some(Input { json, time })
}

#[test]
fn an_iterator_goes_on_from_where_it_is() {
    let schema = LogSchema::default();
    let now = Timestamp { secs: 100, nanos: 0 };
    let mut iter = iterator(&schema, now);
    let item = item(r#"{"event":1}"#, EventTime::Absent);
    let log = iter.next(&schema, Some(&item), now).unwrap().unwrap();
    assert_eq!(log.get("timestamp"), Some(&EventValue::Timestamp(now)));
    assert_eq!(log.get("splunk_channel"), None);
    assert_eq!(log.get("host"), None);
    assert!(iter.next(&schema, None, now).is_none());
    assert!(!iter.done);
    assert!(iter.next(&schema, Some(&item), now).unwrap().is_ok());
    assert!(matches!(
        iter.next(&schema, Some(&None), now),
        Some(Err(ApiError::InvalidDataFormat { event: 2 }))
    ));
    assert_eq!(iter.events, 2);
}

#[test]
fn an_iterator_is_done_after_an_error() {
    let schema = LogSchema::default();
    let now = Timestamp { secs: 100, nanos: 0 };
    let good = item(r#"{"event":1}"#, EventTime::Absent);
    for bad in [
        None,
        Some(None),
        Some(item(r#"{"event":""}"#, EventTime::Absent)),
        Some(item(r#"{"no":"event"}"#, EventTime::Absent)),
        Some(item(r#"{"event":1}"#, EventTime::Unreadable)),
    ] {
        let mut iter = iterator(&schema, now);
        assert!(matches!(iter.next(&schema, bad.as_ref(), now), Some(Err(_))), "{bad:?}");
        assert!(iter.done);
        for offer in [None, Some(&good), Some(&None)] {
            assert!(iter.can_take(offer));
            assert!(iter.next(&schema, offer, now).is_none(), "{bad:?}");
        }
        assert_eq!(iter.events, 0);
        let (events, error) = iter.collect(&schema, &vec![None]);
        assert!(events.is_empty());
        assert_eq!(error, None);
    }
    let mut iter = iterator(&schema, now);
    let items = vec![item(r#"{"event":1}"#, EventTime::Absent), None];
    let (events, error) = iter.collect(&schema, &items);
    assert_eq!(events.len(), 1);
    assert_eq!(error, Some(ApiError::InvalidDataFormat { event: 1 }));
    assert!(iter.done);
    assert!(iter.next(&schema, Some(&good), now).is_none());
}

#[test]
fn what_an_iterator_can_take() {
    let schema = LogSchema::default();
    let now = Timestamp { secs: 100, nanos: 0 };
    let mut iter = iterator(&schema, now);
    let at = |secs| item(r#"{"event":1}"#, EventTime::Instant { secs, nanos: 0 });
    assert!(iter.can_take(None));
    assert!(iter.can_take(Some(&None)));
    assert!(iter.can_take(Some(&at(8210266876799))));
    assert!(!iter.can_take(Some(&at(8210266876800))));
    iter.events = usize::MAX;
    assert!(!iter.can_take(Some(&at(0))));
    assert!(iter.can_take(None));
}

#[test]
fn splits_are_asked_for_until_they_are_complete() {
    match source(SplunkHecFullConfig::default(), false)
        .event_service(request(r#"{"event":1,"time":1.5}{"event":2}"#))
    {
        EventStep::Split { doubles, pending, ack_id } => {
            assert_eq!(doubles.len(), 2);
            let few = vec![(1, 500_000_000)];
            match event_split(pending, &LogSchema::default(), &few, ack_id) {
                EventStep::Split { doubles: again, pending, .. } => {
                    assert_eq!(again, doubles);
                    assert_eq!(pending.byte_size, 33);
                }
                other => panic!("{other:?}"),
            }
        }
        other => panic!("{other:?}"),
    }
}

fn raw_request(body: &[u8]) -> RawRequest {
    RawRequest {
        authorization: None,
        url_token: None,
        channel_header: None,
        params: RawQueryParams {
            channel: some("ch"),
            index: some("i"),
            sourcetype: None,
            source: None,
            host: some("url-host"),
            time: None,
            token: None,
        },
        time_split: None,
        remote: some("peer"),
        forwarded_for: None,
        encoding: None,
        body: body.to_vec(),
    }
}

fn run_raw(source: &SplunkSource, request: RawRequest) -> Vec<LogEvent> {
    match source.raw_service(&LogSchema::default(), request) {
        RawStep::Send { events, ack_id } => {
            assert_eq!(ack_id, None);
            events
        }
        other => panic!("{other:?}"),
    }
}

#[test]
fn raw_events_of_the_vector_namespace() {
    let config =
        SplunkHecFullConfig { log_namespace: Some(true), ..SplunkHecFullConfig::default() };
    let events = run_raw(&source(config, false), raw_request(&[1, 2, 255]));
    let log = &events[0];
    assert_eq!(log.get("message"), Some(&EventValue::Bytes(vec![1, 2, 255])));
    assert_eq!(log.get("index"), Some(&bytes("i")));
    assert_eq!(log.get("host"), Some(&bytes("url-host")));
    let own = log.metadata.get("splunk_hec_full").unwrap();
    assert_eq!(own.get("index"), Some(&bytes("i")));
    assert_eq!(own.get("splunk_channel"), Some(&bytes("ch")));
    assert_eq!(own.get("host"), Some(&bytes("url-host")));
}

#[test]
fn raw_hosts_are_not_overwritten_unless_forwarded() {
    let config =
        SplunkHecFullConfig { auto_forward_metadata: false, ..SplunkHecFullConfig::default() };
    let events = run_raw(&source(config, false), raw_request(b"x"));
    assert_eq!(events[0].get("host"), Some(&bytes("peer")));
    assert_eq!(events[0].get("index"), None);
    assert_eq!(events[0].get("splunk_index"), Some(&bytes("i")));
    let request = RawRequest { forwarded_for: some("1.1.1.1"), ..raw_request(b"x") };
    let config =
        SplunkHecFullConfig { auto_forward_metadata: false, ..SplunkHecFullConfig::default() };
    let events = run_raw(&source(config, false), request);
    assert_eq!(events[0].get("host"), Some(&bytes("1.1.1.1")));
}

#[test]
fn lines_that_say_nothing_are_skipped() {
    let config =
        || SplunkHecFullConfig { raw_line_splitting: true, ..SplunkHecFullConfig::default() };
    let messages = |body: &[u8]| -> Vec<EventValue> {
        run_raw(&source(config(), false), raw_request(body))
            .iter()
            .map(|e| e.get("message").unwrap().clone())
            .collect()
    };
    assert_eq!(messages(b" a \r\n\n \t\nb"), [bytes(" a \r"), bytes("b")]);
    // A single line is kept byte for byte, without the line ends around it
    let own = |line: &[u8]| [EventValue::Bytes(line.to_vec())];
    assert_eq!(messages(b"\n only \xff\n"), own(b" only \xff"));
    assert_eq!(messages(b"\xff"), own(b"\xff"));
    assert_eq!(messages(b"\xe2\x82\n"), own(b"\xe2\x82"));
    assert_eq!(messages(b"\n\r\n\t\n\xf0\x9f\r"), own(b"\xf0\x9f\r"));
    assert_eq!(messages("\u{a0}\n\u{e9}\n\u{2003}".as_bytes()), own("\u{e9}".as_bytes()));
    assert_eq!(messages(b"alpha\n"), [bytes("alpha")]);
    assert_eq!(messages(b"\n\n beta"), [bytes(" beta")]);
    assert_eq!(messages(b"a\xff\nb"), [bytes("a\u{fffd}"), bytes("b")]);
    for body in [&b""[..], b"\n", b" \n\t\n"] {
        match source(config(), false).raw_service(&LogSchema::default(), raw_request(body)) {
            RawStep::Respond(reply) => assert_eq!(told(&reply), (5, None)),
            other => panic!("{other:?}"),
        }
    }
}

#[test]
fn raw_requests_are_refused_in_order() {
    let config = SplunkHecFullConfig { token: some("tok"), ..SplunkHecFullConfig::default() };
    let closed = source(config, false);
    let refused = |request: RawRequest| {
        match closed.raw_service(&LogSchema::default(), request) {
            RawStep::Respond(reply) => reply,
            other => panic!("{other:?}"),
        }
    };
    let bad = || {
        let mut request = RawRequest { encoding: some("br"), ..raw_request(b"") };
        request.params.channel = None;
        request
    };
    assert_eq!(refused(bad()).status, 401);
    let bad = || RawRequest { authorization: some("Splunk tok"), ..bad() };
    assert_eq!(refused(bad()).status, 415);
    let bad = || RawRequest { encoding: some("gzip"), ..bad() };
    assert_eq!(told(&refused(bad())), (10, None));
    let bad = || RawRequest { channel_header: some("ch"), body: b"x".to_vec(), ..bad() };
    assert_eq!(
        told(&refused(bad())),
        (6, Some(HecResponseMetadata::InvalidEventNumber(0)))
    );
}

#[test]
fn raw_requests_get_a_random_channel_and_an_id() {
    let config = || SplunkHecFullConfig {
        raw_require_channel: false,
        store_hec_token: true,
        ..SplunkHecFullConfig::default()
    };
    let mut request = raw_request(b"x");
    request.authorization = some("Splunk kept");
    request.params.channel = None;
    match source(config(), true).raw_service(&LogSchema::default(), request) {
        RawStep::AckId { channel, pending } => {
            assert_eq!(channel.len(), 36);
            for (i, c) in channel.chars().enumerate() {
                match i {
                    8 | 13 | 18 | 23 => assert_eq!(c, '-'),
                    14 => assert_eq!(c, '4'),
                    19 => assert!("89ab".contains(c)),
                    _ => assert!("0123456789abcdef".contains(c)),
                }
            }
            match raw_acknowledged(pending, &LogSchema::default(), Ok(3)) {
                RawStep::Send { events, ack_id } => {
                    assert_eq!(ack_id, Some(3));
                    assert_eq!(
                        events[0].get("splunk_channel"),
                        Some(&EventValue::text(&channel))
                    );
                    assert!(events[0].notify);
                    assert_eq!(events[0].hec_token, some("kept"));
                }
                other => panic!("{other:?}"),
            }
        }
        other => panic!("{other:?}"),
    }
}

#[test]
fn times_of_queries() {
    let at = |secs, nanos| Some(Timestamp { secs, nanos });
    assert_eq!(time_of_query(&None, Some((1, 0))), None);
    assert_eq!(time_of_query(&some("1.25"), Some((1, 250_000_000))), at(1, 250_000_000));
    assert_eq!(time_of_query(&some("1e300"), Some((i64::MAX, 0))), None);
    assert_eq!(time_of_query(&some("1609459200123"), None), at(1609459200, 123_000_000));
    assert_eq!(time_of_query(&some("-1"), None), None);
    assert_eq!(time_of_query(&some("soon"), None), None);
    // Leap seconds only in the last second of a minute
    assert_eq!(time_of_query(&some("59"), Some((59, 1_500_000_000))), at(59, 1_500_000_000));
    assert_eq!(time_of_query(&some("60"), Some((60, 1_500_000_000))), None);
    assert_eq!(time_of_query(&some("59"), Some((59, 2_000_000_000))), None);
}

#[test]
fn raw_bodies_alone() {
    let context = RawContext {
        channel: "c".to_string(),
        remote: None,
        xff: None,
        batch: true,
        log_namespace: LogNamespace::Vector,
        fix_bare_string_events: false,
    };
    let schema = LogSchema::default();
    let log = raw_event(b"all\nof it".to_vec(), false, &context, &schema).unwrap();
    assert_eq!(log.value, bytes("all\nof it"));
    assert!(log.notify);
    let logs = raw_events_split(b"all\nof it".to_vec(), false, &context, &schema).unwrap();
    assert_eq!(logs.len(), 2);
    assert_eq!(logs[1].value, bytes("of it"));
    assert!(matches!(
        raw_event(b"x".to_vec(), true, &context, &schema),
        Err(ApiError::InvalidDataFormat { event: 0 })
    ));
    assert!(matches!(
        raw_events_split(b" ".to_vec(), false, &context, &schema),
        Err(ApiError::NoData)
    ));
}
