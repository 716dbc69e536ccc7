use std::io::Write;

use base64::prelude::{Engine as _, BASE64_STANDARD};

use splunk_hec_full::auth::{authorize, normalize, token_of_basic};
use splunk_hec_full::config::SplunkHecFullConfig;
use splunk_hec_full::encoding::{event_text, raw_bytes};
use splunk_hec_full::log_event::LogNamespace;
use splunk_hec_full::response::{
    finish_err, finish_ok, ApiError, Body, HecResponse, HecResponseMetadata, HecStatusCode, Reply,
};
use splunk_hec_full::routes::{answer_directly, route, Method, Route};
use splunk_hec_full::source::{
    ack_reply, gzip, lenient_json_content_type_check, required_channel, AckRequest, AckStep,
    EventQueryParams, HealthQueryParams, SplunkSource,
};

fn some(s: &str) -> Option<String> {
    Some(s.to_string())
}

/// Status, code, text and event number of an answer that tells of an outcome.
fn told(reply: &Reply) -> (u16, u8, &'static str, Option<usize>) {
    match &reply.body {
        Body::Outcome(response) => (
            reply.status,
            response.code(),
            response.text(),
            match response.metadata {
                Some(HecResponseMetadata::InvalidEventNumber(n)) => Some(n),
                _ => None,
            },
        ),
        other => panic!("no outcome in {other:?}"),
    }
}

#[test]
fn every_error_has_its_answer() {
    assert_eq!(
        told(&finish_err(ApiError::MissingAuthorization)),
        (401, 2, "Token is required", None)
    );
    assert_eq!(
        told(&finish_err(ApiError::InvalidAuthorization)),
        (401, 3, "Invalid authorization", None)
    );
    assert_eq!(
        told(&finish_err(ApiError::MissingChannel)),
        (400, 10, "Data channel is missing", None)
    );
    assert_eq!(told(&finish_err(ApiError::NoData)), (400, 5, "No data", None));
    assert_eq!(
        told(&finish_err(ApiError::InvalidDataFormat { event: 4 })),
        (400, 6, "Invalid data format", Some(4))
    );
    assert_eq!(
        told(&finish_err(ApiError::EmptyEventField { event: 5 })),
        (400, 13, "Event field cannot be blank", Some(5))
    );
    assert_eq!(
        told(&finish_err(ApiError::MissingEventField { event: 6 })),
        (400, 12, "Event field is required", Some(6))
    );
    assert_eq!(
        told(&finish_err(ApiError::ServiceUnavailable)),
        (503, 9, "Server is busy", None)
    );
    assert_eq!(
        told(&finish_err(ApiError::AckIsDisabled)),
        (400, 14, "Ack is disabled", None)
    );
    for (error, status) in [
        (ApiError::UnsupportedEncoding, 415),
        (ApiError::ServerShutdown, 503),
        (ApiError::BadRequest, 400),
    ] {
        let reply = finish_err(error);
        assert_eq!(reply.status, status);
        assert!(matches!(reply.body, Body::Empty));
    }
    let reply = finish_err(ApiError::UnsupportedContentType);
    assert_eq!(reply.status, 415);
    assert!(matches!(
        reply.body,
        Body::Plain("The request's content-type is not supported")
    ));
}

#[test]
fn success_tells_the_id() {
    let reply = finish_ok(None);
    assert_eq!(told(&reply), (200, 0, "Success", None));
    let reply = finish_ok(Some(7));
    match reply.body {
        Body::Outcome(response) => {
            assert_eq!(response.metadata, Some(HecResponseMetadata::AckId(7)))
        }
        other => panic!("{other:?}"),
    }
    let response = HecResponse::new(HecStatusCode::Success)
        .with_metadata(HecResponseMetadata::AckId(1))
        .with_metadata(HecResponseMetadata::AckId(2));
    assert_eq!(response.metadata, Some(HecResponseMetadata::AckId(2)));
    assert_eq!(HecResponse::new(HecStatusCode::NoData).metadata, None);
}

#[test]
fn credentials_are_checked() {
    let valid = vec!["Splunk a".to_string(), "Splunk b".to_string()];
    let none: Vec<String> = Vec::new();
    assert_eq!(authorize(&valid, false, some("Splunk b"), None), Ok(some("b")));
    assert_eq!(
        authorize(&valid, false, some("Splunk c"), None),
        Err(ApiError::InvalidAuthorization)
    );
    assert_eq!(
        authorize(&valid, false, some("b"), None),
        Err(ApiError::InvalidAuthorization)
    );
    assert_eq!(
        authorize(&valid, false, None, some("a")),
        Err(ApiError::MissingAuthorization)
    );
    assert_eq!(authorize(&valid, true, None, some("a")), Ok(some("a")));
    assert_eq!(
        authorize(&valid, true, None, some("c")),
        Err(ApiError::InvalidAuthorization)
    );
    assert_eq!(
        authorize(&valid, true, some("Splunk c"), some("a")),
        Err(ApiError::InvalidAuthorization)
    );
    assert_eq!(
        authorize(&valid, true, None, None),
        Err(ApiError::MissingAuthorization)
    );
    // Without tokens, everything passes, and the prefix comes off
    assert_eq!(authorize(&none, false, None, some("x")), Ok(None));
    assert_eq!(authorize(&none, true, None, some("x")), Ok(some("x")));
    assert_eq!(authorize(&none, false, some("Splunk x"), None), Ok(some("x")));
    assert_eq!(authorize(&none, false, some("Bearer x"), None), Ok(some("Bearer x")));
}

#[test]
fn basic_credentials_become_tokens() {
    let basic = |pair: &str| format!("Basic {}", BASE64_STANDARD.encode(pair));
    assert_eq!(normalize(basic("x:tok")), "Splunk tok");
    assert_eq!(normalize(basic("user:a:b")), "Splunk a:b");
    assert_eq!(normalize(basic(":")), "Splunk ");
    assert_eq!(normalize(basic("no colon")), basic("no colon"));
    assert_eq!(normalize("Basic !!".to_string()), "Basic !!");
    assert_eq!(normalize("Basic /w==".to_string()), "Basic /w==");
    assert_eq!(normalize("basic eDp0".to_string()), "basic eDp0");
    assert_eq!(
        token_of_basic("h".to_string(), Some("ü:€".as_bytes().to_vec())),
        "Splunk €"
    );
    assert_eq!(token_of_basic("h".to_string(), Some(vec![0xff, b':'])), "h");
    assert_eq!(token_of_basic("h".to_string(), None), "h");
}

fn gzipped(data: &[u8]) -> Vec<u8> {
    let mut encoder =
        flate2::write::GzEncoder::new(Vec::new(), flate2::Compression::default());
    encoder.write_all(data).unwrap();
    encoder.finish().unwrap()
}

#[test]
fn bodies_are_unpacked() {
    assert_eq!(event_text(b"plain".to_vec(), false), Ok(("plain".to_string(), 5)));
    assert_eq!(event_text(gzipped(b"packed"), true), Ok(("packed".to_string(), 6)));
    let two = [gzipped(b"one"), gzipped(b"two")].concat();
    assert_eq!(event_text(two, true), Ok(("onetwo".to_string(), 6)));
    assert_eq!(event_text(b"plain".to_vec(), true), Err(ApiError::BadRequest));
    assert_eq!(event_text(vec![b'a', 0xff, b'b'], false), Ok(("a\u{fffd}b".to_string(), 3)));
    assert_eq!(raw_bytes(vec![0xff], false), Ok(vec![0xff]));
    assert_eq!(raw_bytes(gzipped(b"raw"), true), Ok(b"raw".to_vec()));
    assert_eq!(raw_bytes(vec![], false), Err(ApiError::NoData));
    assert_eq!(raw_bytes(gzipped(b""), true), Err(ApiError::NoData));
    assert_eq!(
        raw_bytes(b"plain".to_vec(), true),
        Err(ApiError::InvalidDataFormat { event: 0 })
    );
}

#[test]
fn only_gzip_is_an_encoding() {
    assert_eq!(gzip(&None), Ok(false));
    assert_eq!(gzip(&some("gzip")), Ok(true));
    assert_eq!(gzip(&some("GZIP")), Err(ApiError::UnsupportedEncoding));
    assert_eq!(gzip(&some("deflate")), Err(ApiError::UnsupportedEncoding));
}

#[test]
fn a_channel_comes_from_header_or_query() {
    assert_eq!(required_channel(some("h"), some("q")), Ok("h".to_string()));
    assert_eq!(required_channel(None, some("q")), Ok("q".to_string()));
    assert_eq!(required_channel(None, None), Err(ApiError::MissingChannel));
}

#[test]
fn content_types_are_taken_leniently() {
    for ok in ["application/json", "Application/JSON; charset=utf-8", "x, application/json"] {
        assert_eq!(lenient_json_content_type_check(&some(ok)), Ok(()));
    }
    assert_eq!(lenient_json_content_type_check(&None), Ok(()));
    assert_eq!(
        lenient_json_content_type_check(&some("text/plain")),
        Err(ApiError::UnsupportedContentType)
    );
}

#[test]
fn parameters_ask_with_true_or_one() {
    for (value, asked) in
        [(None, false), (some("true"), true), (some("1"), true), (some("TRUE"), false)]
    {
        let params = HealthQueryParams { token: None, ack: value.clone() };
        assert_eq!(params.ack_enabled(), asked);
        let params =
            EventQueryParams { channel: None, token: None, auto_extract_timestamp: value };
        assert_eq!(params.auto_extract_timestamp_enabled(), asked);
    }
}

#[test]
fn requests_find_their_endpoints() {
    let base = "/services/collector";
    for (method, path, expected) in [
        (Method::Post, "", Route::Event),
        (Method::Post, "/", Route::Event),
        (Method::Post, "/event", Route::Event),
        (Method::Post, "/event/", Route::Event),
        (Method::Post, "/event/1.0", Route::Event),
        (Method::Post, "/raw", Route::Raw),
        (Method::Post, "/raw/1.0", Route::Raw),
        (Method::Post, "/ack", Route::Ack),
        (Method::Get, "/health", Route::Health),
        (Method::Get, "/health/1.0", Route::Health),
        (Method::Options, "/event", Route::OptionsPost),
        (Method::Options, "/event/1.0", Route::OptionsPost),
        (Method::Options, "/raw", Route::OptionsPost),
        (Method::Options, "/raw/1.0", Route::OptionsPost),
        (Method::Options, "/health", Route::OptionsGet),
        (Method::Options, "/health/1.0", Route::OptionsGet),
        (Method::Options, "/ack", Route::NotAllowed),
        (Method::Options, "", Route::NotAllowed),
        (Method::Get, "/event", Route::NotAllowed),
        (Method::Post, "/health", Route::NotAllowed),
        (Method::Post, "/event//", Route::NotAllowed),
        (Method::Post, "//event", Route::NotAllowed),
        (Method::Post, "/event/2.0", Route::NotAllowed),
        (Method::Post, "/ack/1.0", Route::NotAllowed),
        (Method::Other, "/event", Route::NotAllowed),
    ] {
        assert_eq!(route(method, &format!("{base}{path}")), expected, "{path}");
    }
    for path in ["/", "", "/services", "/services/other/event", "//services/collector"] {
        assert_eq!(route(Method::Post, path), Route::NotFound, "{path}");
    }
}

#[test]
fn some_requests_are_answered_directly() {
    let post = answer_directly(Route::OptionsPost).unwrap();
    assert_eq!((post.status, post.allow), (200, Some("POST")));
    let get = answer_directly(Route::OptionsGet).unwrap();
    assert_eq!((get.status, get.allow), (200, Some("GET")));
    let not_allowed = answer_directly(Route::NotAllowed).unwrap();
    assert_eq!((not_allowed.status, not_allowed.allow), (405, None));
    assert_eq!(answer_directly(Route::NotFound).unwrap().status, 404);
    assert!(answer_directly(Route::Event).is_none());
    assert!(answer_directly(Route::Ack).is_none());
}

fn source(acknowledgements: bool) -> SplunkSource {
    let config = SplunkHecFullConfig {
        token: some("old"),
        valid_tokens: Some(vec!["new".to_string()]),
        acknowledgements: Some(acknowledgements),
        ..SplunkHecFullConfig::default()
    };
    SplunkSource::new(&config, LogNamespace::Vector, !acknowledgements)
}

#[test]
fn a_source_follows_its_settings() {
    let source = source(true);
    assert_eq!(source.valid_credentials, ["Splunk new", "Splunk old"]);
    assert!(source.acknowledgements);
    assert_eq!(source.log_namespace, LogNamespace::Vector);
    let config = SplunkHecFullConfig::default();
    let source = SplunkSource::new(&config, LogNamespace::Legacy, true);
    assert!(source.valid_credentials.is_empty());
    assert!(source.acknowledgements);
}

#[test]
fn health_is_told() {
    let tell = |source: &SplunkSource, token: Option<&str>, ack: Option<&str>| {
        let reply = source.health_service(&HealthQueryParams {
            token: token.map(String::from),
            ack: ack.map(String::from),
        });
        match reply.body {
            Body::Health(text, code) => (reply.status, text, code),
            other => panic!("{other:?}"),
        }
    };
    let off = source(false);
    assert_eq!(tell(&off, Some("new"), None), (200, "HEC is healthy", 17));
    assert_eq!(tell(&off, Some("nope"), Some("1")), (400, "Invalid token", 4));
    assert_eq!(tell(&off, None, Some("1")), (503, "ACK is disabled", 14));
    assert_eq!(tell(&source(true), None, Some("true")), (200, "HEC is healthy", 17));
    let open =
        SplunkSource::new(&SplunkHecFullConfig::default(), LogNamespace::Legacy, false);
    assert_eq!(tell(&open, Some("anything"), None), (200, "HEC is healthy", 17));
}

fn ack_request() -> AckRequest {
    AckRequest {
        authorization: some("Splunk new"),
        url_token: None,
        channel_header: None,
        channel_query: some("ch"),
        content_type: some("application/json"),
        acks: Some(vec![1, 2]),
    }
}

fn ack_refusal(source: &SplunkSource, request: AckRequest) -> u16 {
    match source.ack_service(request) {
        AckStep::Respond(reply) => reply.status,
        other => panic!("{other:?}"),
    }
}

#[test]
fn questions_about_delivery_are_checked() {
    let on = source(true);
    match on.ack_service(ack_request()) {
        AckStep::Status { channel, acks } => {
            assert_eq!(channel, "ch");
            assert_eq!(acks, [1, 2]);
        }
        other => panic!("{other:?}"),
    }
    assert_eq!(ack_refusal(&on, AckRequest { authorization: None, ..ack_request() }), 401);
    assert_eq!(ack_refusal(&on, AckRequest { channel_query: None, ..ack_request() }), 400);
    assert_eq!(
        ack_refusal(&on, AckRequest { content_type: some("text/xml"), ..ack_request() }),
        415
    );
    assert_eq!(ack_refusal(&on, AckRequest { acks: None, ..ack_request() }), 400);
    match source(false).ack_service(ack_request()) {
        AckStep::Respond(reply) => {
            assert_eq!(told(&reply), (400, 14, "Ack is disabled", None))
        }
        other => panic!("{other:?}"),
    }
    let reply = ack_reply(Ok(vec![(1, true), (2, false)]));
    assert_eq!(reply.status, 200);
    assert!(matches!(reply.body, Body::Acks(ref acks) if acks == &[(1, true), (2, false)]));
    assert_eq!(ack_reply(Err(ApiError::ServiceUnavailable)).status, 503);
}
