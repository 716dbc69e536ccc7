//! What holds of every request as a whole: where it goes, who may send it, and how it is answered.
use vstd::prelude::*;
use vstd::utf8::*;

use crate::auth;
use crate::config;
use crate::config::{DeclaredView, Kind, Meaning, Place, SplunkHecFullConfig};
use crate::encoding;
use crate::events;
use crate::log_event::{LogNamespace, SchemaView};
use crate::raw_laws;
use crate::response;
use crate::response::{
    ApiError, Body, BodyView, HecResponseMetadata, HecResponseView, Reply, ReplyView,
};
use crate::routes;
use crate::routes::{Method, Route};
use crate::source;
use crate::source::AckRequest;
use crate::text;
use crate::text_laws;

verus! {

/// A path is its segments with slashes between them, perhaps after one slash and before one.
pub proof fn law_segments_spell_the_path(path: Seq<char>) -> (around: (Seq<char>, Seq<char>))
    ensures
        around.0 == Seq::<char>::empty() || around.0 == seq!['/'],
        around.1 == Seq::<char>::empty() || around.1 == seq!['/'],
        forall|i: int|
            0 <= i < routes::segments(path).len() ==> !(#[trigger] routes::segments(
                path,
            )[i]).contains('/'),
        routes::segments(path).len() > 0 ==> path == around.0 + raw_laws::joined(
            routes::segments(path),
            '/',
        ) + around.1,
        routes::segments(path).len() == 0 ==> path == around.0 && around.1 == Seq::<char>::empty(),
{
    let lead = if path.len() > 0 && path[0] == '/' {
        seq!['/']
    } else {
        Seq::<char>::empty()
    };
    let rest = path.skip(lead.len() as int);
    assert(path.len() > 0 && path[0] == '/' || path.skip(0) =~= path);
    assert(path =~= lead + rest);
    text_laws::law_splitting_cuts_at_every_separator(rest, '/');
    let pieces = text::split_on(rest, '/');
    let segments = routes::segments(path);
    assert forall|i: int| 0 <= i < segments.len() implies !(#[trigger] segments[i]).contains(
        '/',
    ) by {
        assert(segments[i] == pieces[i]);
    }
    if pieces.last().len() == 0 {
        assert(pieces.last() =~= Seq::empty());
        if pieces.len() > 1 {
            assert(rest =~= raw_laws::joined(segments, '/') + seq!['/']);
            assert(path =~= lead + raw_laws::joined(segments, '/') + seq!['/']);
            (lead, seq!['/'])
        } else {
            assert(rest =~= Seq::empty());
            assert(path =~= lead);
            (lead, Seq::empty())
        }
    } else {
        assert(path =~= lead + raw_laws::joined(segments, '/') + Seq::<char>::empty());
        (lead, Seq::empty())
    }
}

/// Events are posted to `/services/collector`, `/services/collector/event` and
/// `/services/collector/event/1.0`, and nowhere else.
pub proof fn law_events_are_posted_here(method: Method, path: Seq<char>)
    ensures
        routes::route_of(method, path) == Route::Event <==> method == Method::Post && ({
            let s = routes::segments(path);
            ||| s == seq!["services"@, "collector"@]
            ||| s == seq!["services"@, "collector"@, "event"@]
            ||| s == seq!["services"@, "collector"@, "event"@, "1.0"@]
        }),
{
    lemma_below_the_service(path);
    lemma_route_names();
}

/// Raw data is posted to `/services/collector/raw` and `/services/collector/raw/1.0`, and nowhere
/// else.
pub proof fn law_raw_data_is_posted_here(method: Method, path: Seq<char>)
    ensures
        routes::route_of(method, path) == Route::Raw <==> method == Method::Post && ({
            let s = routes::segments(path);
            ||| s == seq!["services"@, "collector"@, "raw"@]
            ||| s == seq!["services"@, "collector"@, "raw"@, "1.0"@]
        }),
{
    lemma_below_the_service(path);
    lemma_route_names();
}

/// Health is asked for at `/services/collector/health` and `/services/collector/health/1.0`, and
/// nowhere else.
pub proof fn law_health_is_asked_for_here(method: Method, path: Seq<char>)
    ensures
        routes::route_of(method, path) == Route::Health <==> method == Method::Get && ({
            let s = routes::segments(path);
            ||| s == seq!["services"@, "collector"@, "health"@]
            ||| s == seq!["services"@, "collector"@, "health"@, "1.0"@]
        }),
{
    lemma_below_the_service(path);
    lemma_route_names();
}

/// Whether events were delivered is asked at `/services/collector/ack`, and nowhere else.
pub proof fn law_delivery_is_asked_for_here(method: Method, path: Seq<char>)
    ensures
        routes::route_of(method, path) == Route::Ack <==> method == Method::Post
            && routes::segments(path) == seq!["services"@, "collector"@, "ack"@],
{
    lemma_below_the_service(path);
    lemma_route_names();
}

/// Which methods are allowed is asked at the endpoints for events, raw data and health.
pub proof fn law_methods_are_asked_for_here(method: Method, path: Seq<char>)
    ensures
        routes::route_of(method, path) == Route::OptionsPost <==> method == Method::Options && ({
            let s = routes::segments(path);
            ||| s == seq!["services"@, "collector"@, "event"@]
            ||| s == seq!["services"@, "collector"@, "event"@, "1.0"@]
            ||| s == seq!["services"@, "collector"@, "raw"@]
            ||| s == seq!["services"@, "collector"@, "raw"@, "1.0"@]
        }),
        routes::route_of(method, path) == Route::OptionsGet <==> method == Method::Options && ({
            let s = routes::segments(path);
            ||| s == seq!["services"@, "collector"@, "health"@]
            ||| s == seq!["services"@, "collector"@, "health"@, "1.0"@]
        }),
{
    lemma_below_the_service(path);
    lemma_route_names();
}

/// A path that does not start with `/services/collector` is not found, and only such a path.
pub proof fn law_other_paths_are_not_found(method: Method, path: Seq<char>)
    ensures
        routes::route_of(method, path) == Route::NotFound <==> !({
            let s = routes::segments(path);
            &&& s.len() >= 2
            &&& s[0] == "services"@
            &&& s[1] == "collector"@
        }),
{
}

spec fn is_below(segments: Seq<Seq<char>>) -> bool {
    segments.len() >= 2 && segments[0] == "services"@ && segments[1] == "collector"@
}

proof fn lemma_below_the_service(path: Seq<char>)
    ensures
        ({
            let s = routes::segments(path);
            &&& is_below(s) && s.skip(2).len() == 0 <==> s == seq!["services"@, "collector"@]
            &&& forall|a: Seq<char>|
                is_below(s) && #[trigger] routes::are(s.skip(2), a, None) <==> s == seq![
                    "services"@,
                    "collector"@,
                    a,
                ]
            &&& forall|a: Seq<char>, b: Seq<char>|
                is_below(s) && #[trigger] routes::are(s.skip(2), a, Some(b)) <==> s == seq![
                    "services"@,
                    "collector"@,
                    a,
                    b,
                ]
        }),
{
    let s = routes::segments(path);
    if is_below(s) && s.skip(2).len() == 0 {
        assert(s =~= seq!["services"@, "collector"@]);
    }
    assert forall|a: Seq<char>|
        is_below(s) && #[trigger] routes::are(s.skip(2), a, None) <==> s == seq![
            "services"@,
            "collector"@,
            a,
        ] by {
        let whole = seq!["services"@, "collector"@, a];
        if is_below(s) && routes::are(s.skip(2), a, None) {
            assert(s.skip(2)[0] == s[2]);
            assert(s =~= whole);
        }
        if s == whole {
            assert(s.skip(2) =~= seq![a]);
        }
    }
    assert forall|a: Seq<char>, b: Seq<char>|
        is_below(s) && #[trigger] routes::are(s.skip(2), a, Some(b)) <==> s == seq![
            "services"@,
            "collector"@,
            a,
            b,
        ] by {
        let whole = seq!["services"@, "collector"@, a, b];
        if is_below(s) && routes::are(s.skip(2), a, Some(b)) {
            assert(s.skip(2)[0] == s[2]);
            assert(s.skip(2)[1] == s[3]);
            assert(s =~= whole);
        }
        if s == whole {
            assert(s.skip(2) =~= seq![a, b]);
        }
    }
}

proof fn lemma_route_names()
    ensures
        "event"@ != "raw"@,
        "event"@ != "ack"@,
        "event"@ != "health"@,
        "raw"@ != "ack"@,
        "raw"@ != "health"@,
        forall|a: Seq<char>, b: Seq<char>| seq![a] == #[trigger] seq![b] ==> a == b,
        forall|a: Seq<char>, b: Seq<char>, c: Seq<char>, d: Seq<char>|
            #[trigger] seq![a, b] == #[trigger] seq![c, d] ==> a == c && b == d,
        forall|a: Seq<char>, b: Seq<char>, c: Seq<char>| seq![a] != #[trigger] seq![b, c],
{
    reveal_strlit("event");
    reveal_strlit("raw");
    reveal_strlit("ack");
    reveal_strlit("health");
    assert("event"@.len() == 5 && "raw"@.len() == 3 && "ack"@.len() == 3 && "health"@.len() == 6);
    assert("raw"@[0] == 'r' && "ack"@[0] == 'a');
    assert forall|a: Seq<char>, b: Seq<char>| seq![a] == #[trigger] seq![b] implies a == b by {
        assert(seq![a][0] == seq![b][0]);
    }
    assert forall|a: Seq<char>, b: Seq<char>, c: Seq<char>, d: Seq<char>|
        #[trigger] seq![a, b] == #[trigger] seq![c, d] implies a == c && b == d by {
        assert(seq![a, b][0] == seq![c, d][0]);
        assert(seq![a, b][1] == seq![c, d][1]);
    }
    assert forall|a: Seq<char>, b: Seq<char>, c: Seq<char>| seq![a] != #[trigger] seq![b, c] by {
        assert(seq![a].len() == 1);
        assert(seq![b, c].len() == 2);
    }
}

/// The answers that no endpoint need be asked about: 200 with the methods that are allowed, 405 for
/// a method that is not, 404 for a path that is not there.
pub proof fn law_direct_answers(route: Route)
    ensures
        routes::direct_reply(Route::OptionsPost) == Some(
            ReplyView { status: 200, allow: Some("POST"@), body: BodyView::Empty },
        ),
        routes::direct_reply(Route::OptionsGet) == Some(
            ReplyView { status: 200, allow: Some("GET"@), body: BodyView::Empty },
        ),
        routes::direct_reply(Route::NotAllowed) == Some(
            ReplyView {
                status: 405,
                allow: None,
                body: BodyView::Plain("HTTP method not allowed"@),
            },
        ),
        routes::direct_reply(Route::NotFound) == Some(
            ReplyView { status: 404, allow: None, body: BodyView::Empty },
        ),
        route == Route::Event || route == Route::Raw || route == Route::Health || route
            == Route::Ack ==> routes::direct_reply(route) is None,
{
}

/// The body of an answer that tells of an outcome.
pub open spec fn tells(
    reply: ReplyView,
    status: u16,
    code: u8,
    words: Seq<char>,
    metadata: Option<HecResponseMetadata>,
) -> bool {
    &&& reply.status == status
    &&& reply.allow is None
    &&& reply.body == BodyView::Outcome(HecResponseView { text: words, code, metadata })
}

/// An accepted request is answered 200, code 0, "Success", with the id that it was given.
pub proof fn law_accepted_requests_are_answered(id: u64)
    ensures
        tells(response::ok_reply(None), 200, 0, "Success"@, None),
        tells(
            response::ok_reply(Some(id)),
            200,
            0,
            "Success"@,
            Some(HecResponseMetadata::AckId(id)),
        ),
{
}

/// A request that is refused for one of its events is answered 400, with the code and the words for
/// what is wrong, and the number of the event.
pub proof fn law_refused_events_are_answered(event: usize)
    ensures
        tells(
            response::error_reply(ApiError::InvalidDataFormat { event }),
            400,
            6,
            "Invalid data format"@,
            Some(HecResponseMetadata::InvalidEventNumber(event)),
        ),
        tells(
            response::error_reply(ApiError::MissingEventField { event }),
            400,
            12,
            "Event field is required"@,
            Some(HecResponseMetadata::InvalidEventNumber(event)),
        ),
        tells(
            response::error_reply(ApiError::EmptyEventField { event }),
            400,
            13,
            "Event field cannot be blank"@,
            Some(HecResponseMetadata::InvalidEventNumber(event)),
        ),
{
}

/// A request that is refused as a whole is answered with the status, the code and the words for
/// what is wrong, and no number; some refusals have no body, and one is plain text.
pub proof fn law_refused_requests_are_answered()
    ensures
        tells(
            response::error_reply(ApiError::MissingAuthorization),
            401,
            2,
            "Token is required"@,
            None,
        ),
        tells(
            response::error_reply(ApiError::InvalidAuthorization),
            401,
            3,
            "Invalid authorization"@,
            None,
        ),
        tells(response::error_reply(ApiError::NoData), 400, 5, "No data"@, None),
        tells(
            response::error_reply(ApiError::MissingChannel),
            400,
            10,
            "Data channel is missing"@,
            None,
        ),
        tells(response::error_reply(ApiError::AckIsDisabled), 400, 14, "Ack is disabled"@, None),
        tells(
            response::error_reply(ApiError::ServiceUnavailable),
            503,
            9,
            "Server is busy"@,
            None,
        ),
        response::error_reply(ApiError::UnsupportedEncoding) == (ReplyView {
            status: 415,
            allow: None,
            body: BodyView::Empty,
        }),
        response::error_reply(ApiError::UnsupportedContentType) == (ReplyView {
            status: 415,
            allow: None,
            body: BodyView::Plain("The request's content-type is not supported"@),
        }),
        response::error_reply(ApiError::ServerShutdown) == (ReplyView {
            status: 503,
            allow: None,
            body: BodyView::Empty,
        }),
        response::error_reply(ApiError::BadRequest) == (ReplyView {
            status: 400,
            allow: None,
            body: BodyView::Empty,
        }),
{
}

/// What a request passes with, or why it does not: it passes with `token` where no credentials are
/// configured or its own is among them.
pub open spec fn passes_with(
    valid: Seq<Seq<char>>,
    own: Seq<char>,
    token: Seq<char>,
) -> Result<Option<Seq<char>>, ApiError> {
    if valid.len() == 0 || valid.contains(own) {
        Ok(Some(token))
    } else {
        Err(ApiError::InvalidAuthorization)
    }
}

proof fn lemma_tokens_are_not_basic(token: Seq<char>)
    ensures
        text::strip_prefix("Splunk "@ + token, "Basic "@) is None,
        text::strip_prefix("Splunk "@ + token, "Splunk "@) == Some(token),
{
    reveal_strlit("Basic ");
    reveal_strlit("Splunk ");
    let h = "Splunk "@ + token;
    assert(h[0] == 'S');
    if "Basic "@.is_prefix_of(h) {
        assert(h.subrange(0, 6)[0] == 'B');
    }
    text_laws::law_prefixes_come_off("Splunk "@, token, h);
}

/// A request with the header `Splunk <token>` passes, with that token, exactly if that credential
/// is configured or none is; whatever its URL says.
pub proof fn law_header_tokens_are_checked(
    valid: Seq<Seq<char>>,
    allow: bool,
    token: Seq<char>,
    url_token: Option<Seq<char>>,
)
    ensures
        auth::authorized(valid, allow, Some("Splunk "@ + token), url_token) == passes_with(
            valid,
            "Splunk "@ + token,
            token,
        ),
{
    lemma_tokens_are_not_basic(token);
}

/// A header in no known form is a credential and a token as it stands.
pub proof fn law_other_headers_are_checked_as_they_stand(
    valid: Seq<Seq<char>>,
    allow: bool,
    header: Seq<char>,
    url_token: Option<Seq<char>>,
)
    requires
        forall|rest: Seq<char>| header != #[trigger] ("Splunk "@ + rest),
        forall|rest: Seq<char>| header != #[trigger] ("Basic "@ + rest),
    ensures
        auth::authorized(valid, allow, Some(header), url_token) == passes_with(
            valid,
            header,
            header,
        ),
{
    lemma_no_prefix("Splunk "@, header);
    lemma_no_prefix("Basic "@, header);
}

proof fn lemma_no_prefix(prefix: Seq<char>, s: Seq<char>)
    requires
        forall|rest: Seq<char>| s != #[trigger] (prefix + rest),
    ensures
        text::strip_prefix(s, prefix) is None,
{
    if text::strip_prefix(s, prefix) is Some {
        let rest = text::strip_prefix(s, prefix)->0;
        text_laws::law_prefixes_come_off(prefix, rest, s);
        assert(s == prefix + rest);
    }
}

/// A request with basic authentication has the password for its token, which is all that comes
/// after the first colon, whatever the user is called.
pub proof fn law_basic_passwords_are_checked(
    valid: Seq<Seq<char>>,
    allow: bool,
    b64: Seq<char>,
    user: Seq<char>,
    password: Seq<char>,
    url_token: Option<Seq<char>>,
)
    requires
        encoding::base64_decoded(b64) == Some(encode_utf8(user + seq![':'] + password)),
        !user.contains(':'),
    ensures
        auth::authorized(valid, allow, Some("Basic "@ + b64), url_token) == passes_with(
            valid,
            "Splunk "@ + password,
            password,
        ),
{
    let pair = user + seq![':'] + password;
    encode_utf8_decode_utf8(pair);
    encode_utf8_valid_utf8(pair);
    text_laws::law_cutting_once_undoes_joining(user, ':', password);
    text_laws::law_prefixes_come_off("Basic "@, b64, "Basic "@ + b64);
    lemma_tokens_are_not_basic(password);
}

/// Basic authentication that does not hold a user and a password is a credential and a token as it
/// stands.
pub proof fn law_broken_basic_is_checked_as_it_stands(
    valid: Seq<Seq<char>>,
    allow: bool,
    b64: Seq<char>,
    url_token: Option<Seq<char>>,
)
    requires
        encoding::base64_decoded(b64) matches Some(bytes) ==> !valid_utf8(bytes) || !decode_utf8(
            bytes,
        ).contains(':'),
    ensures
        auth::authorized(valid, allow, Some("Basic "@ + b64), url_token) == passes_with(
            valid,
            "Basic "@ + b64,
            "Basic "@ + b64,
        ),
{
    let header = "Basic "@ + b64;
    text_laws::law_prefixes_come_off("Basic "@, b64, header);
    match encoding::base64_decoded(b64) {
        Some(bytes) => {
            if valid_utf8(bytes) {
                let s = decode_utf8(bytes);
                text_laws::law_cutting_once_is_at_the_first(s, ':');
                if text::split_once(s, ':') is Some {
                    let (left, right) = text::split_once(s, ':')->0;
                    assert(s[left.len() as int] == ':');
                }
            }
        },
        None => {},
    }
    reveal_strlit("Basic ");
    reveal_strlit("Splunk ");
    assert(header[0] == 'B');
    if "Splunk "@.is_prefix_of(header) {
        assert(header.subrange(0, 7)[0] == 'S');
    }
}

/// A request without a header counts by the token of its URL where that is allowed, and has no
/// token otherwise: it then passes exactly if no credentials are configured.
pub proof fn law_requests_without_a_header(
    valid: Seq<Seq<char>>,
    token: Seq<char>,
    url_token: Option<Seq<char>>,
)
    ensures
        auth::authorized(valid, true, None, Some(token)) == passes_with(
            valid,
            "Splunk "@ + token,
            token,
        ),
        auth::authorized(valid, true, None, None) == auth::authorized(
            valid,
            false,
            None,
            url_token,
        ),
        auth::authorized(valid, false, None, url_token) == if valid.len() == 0 {
            Ok::<Option<Seq<char>>, ApiError>(None)
        } else {
            Err(ApiError::MissingAuthorization)
        },
{
    lemma_tokens_are_not_basic(token);
}

/// The credentials that are configured are those of the tokens in the list and of the single token,
/// and no others; there are none exactly if there is no token.
pub proof fn law_configured_tokens_are_valid(config: SplunkHecFullConfig, token: Seq<char>)
    ensures
        ({
            let valid = source::credentials(source::configured_tokens(config));
            let listed = config.valid_tokens matches Some(tokens) && exists|i: int|
                0 <= i < tokens.len() && (#[trigger] tokens[i])@ == token;
            let single = config.token matches Some(one) && one@ == token;
            &&& valid.contains("Splunk "@ + token) <==> listed || single
            &&& valid.len() == 0 <==> config.token is None && (config.valid_tokens matches Some(
                tokens,
            ) ==> tokens.len() == 0)
        }),
{
    let tokens = source::configured_tokens(config);
    let valid = source::credentials(tokens);
    let listed = match config.valid_tokens {
        Some(t) => auth::texts(t@),
        None => Seq::empty(),
    };
    if valid.contains("Splunk "@ + token) {
        let i = choose|i: int| 0 <= i < valid.len() && valid[i] == "Splunk "@ + token;
        assert(valid[i] == "Splunk "@ + tokens[i]);
        assert(("Splunk "@ + tokens[i]).skip("Splunk "@.len() as int) =~= tokens[i]);
        assert(("Splunk "@ + token).skip("Splunk "@.len() as int) =~= token);
        assert(tokens[i] == token);
        if i < listed.len() {
            assert(config.valid_tokens->0[i]@ == token);
        }
    }
    if config.valid_tokens is Some && exists|i: int|
        0 <= i < config.valid_tokens->0.len() && (#[trigger] config.valid_tokens->0[i])@ == token {
        let i = choose|i: int|
            0 <= i < config.valid_tokens->0.len() && (#[trigger] config.valid_tokens->0[i])@
                == token;
        assert(tokens[i] == token);
        assert(valid[i] == "Splunk "@ + token);
    }
    if config.token is Some && config.token->0@ == token {
        let i = listed.len() as int;
        assert(tokens[i] == token);
        assert(valid[i] == "Splunk "@ + token);
    }
}

/// A body is packed exactly if its encoding is spelled `gzip`, and plain exactly if none is named;
/// every other spelling is refused.
pub proof fn law_encodings_are_gzip_or_none(encoding: Seq<char>)
    ensures
        source::gzip_asked(None) == Ok::<bool, ApiError>(false),
        source::gzip_asked(Some("gzip"@)) == Ok::<bool, ApiError>(true),
        encoding != "gzip"@ ==> source::gzip_asked(Some(encoding)) == Err::<bool, ApiError>(
            ApiError::UnsupportedEncoding,
        ),
{
}

/// A parameter asks for something exactly if it is spelled `true` or `1`.
pub proof fn law_parameters_ask_by_true_or_one(param: Seq<char>)
    ensures
        !source::asks(None),
        source::asks(Some(param)) <==> param == "true"@ || param == "1"@,
{
}

/// The first of two texts that is there is the first wherever there is a first.
pub proof fn law_the_first_counts(a: Seq<char>, b: Option<Seq<char>>)
    ensures
        events::first_of(Some(a), b) == Some(a),
        events::first_of(None, b) == b,
{
}

/// A content type is that of JSON wherever `application/json` stands in it, in whatever case, and
/// where there is none.
pub proof fn law_json_content_types(
    before: Seq<char>,
    name: Seq<char>,
    after: Seq<char>,
    content_type: Seq<char>,
)
    ensures
        source::is_json(None),
        text::ascii_lowered(name) == "application/json"@ ==> source::is_json(
            Some(before + name + after),
        ),
        source::is_json(Some(content_type)) ==> exists|i: int|
            0 <= i <= content_type.len() - 16 && text::ascii_lowered(
                #[trigger] content_type.subrange(i, i + 16),
            ) == "application/json"@,
{
    reveal_strlit("application/json");
    assert("application/json"@.len() == 16);
    if text::ascii_lowered(name) == "application/json"@ {
        let whole = before + name + after;
        assert(text::ascii_lowered(whole) =~= text::ascii_lowered(before) + text::ascii_lowered(
            name,
        ) + text::ascii_lowered(after));
        text_laws::law_occurring_is_standing_between(
            text::ascii_lowered(before),
            "application/json"@,
            text::ascii_lowered(after),
            whole,
        );
    }
    if source::is_json(Some(content_type)) {
        let lower = text::ascii_lowered(content_type);
        let i = choose|i: int| text::occurs_at("application/json"@, lower, i);
        assert(text::ascii_lowered(content_type.subrange(i, i + 16)) =~= lower.subrange(i, i + 16));
    }
}

/// The health endpoint refuses a token that is not configured where any is, tells where ids for
/// delivery were asked for and are not given, and says that all is well otherwise.
pub proof fn law_health_is_told(
    valid: Seq<Seq<char>>,
    acknowledgements: bool,
    token: Option<Seq<char>>,
    ack: Option<Seq<char>>,
)
    ensures
        ({
            let reply = source::health_reply(valid, acknowledgements, token, ack);
            let refused = token matches Some(t) && valid.len() > 0 && !valid.contains(
                "Splunk "@ + t,
            );
            let asked = ack == Some("true"@) || ack == Some("1"@);
            &&& reply.allow is None
            &&& refused ==> reply.status == 400 && reply.body == BodyView::Health(
                "Invalid token"@,
                4,
            )
            &&& !refused && asked && !acknowledgements ==> reply.status == 503 && reply.body
                == BodyView::Health("ACK is disabled"@, 14)
            &&& !refused && !(asked && !acknowledgements) ==> reply.status == 200 && reply.body
                == BodyView::Health("HEC is healthy"@, 17)
        }),
{
}

/// A question whether events were delivered is looked up exactly if its credentials pass, a channel
/// stands in its header or in its query, its content type is that of JSON, its body can be read,
/// and ids are given.
pub proof fn law_questions_are_looked_up(
    valid: Seq<Seq<char>>,
    allow: bool,
    acknowledgements: bool,
    request: AckRequest,
)
    ensures
        source::ack_error(valid, allow, acknowledgements, request) is None <==> {
            &&& auth::authorized(
                valid,
                allow,
                text::text_of(request.authorization),
                text::text_of(request.url_token),
            ) is Ok
            &&& request.channel_header is Some || request.channel_query is Some
            &&& source::is_json(text::text_of(request.content_type))
            &&& request.acks is Some
            &&& acknowledgements
        },
{
}

/// What is wrong with a question is told in this order: its credentials, a channel that is missing
/// in its header and in its query, its content type, its body, and that no ids are given.
pub proof fn law_questions_are_refused_in_order(
    valid: Seq<Seq<char>>,
    allow: bool,
    acknowledgements: bool,
    request: AckRequest,
)
    ensures
        ({
            let error = source::ack_error(valid, allow, acknowledgements, request);
            let verdict = auth::authorized(
                valid,
                allow,
                text::text_of(request.authorization),
                text::text_of(request.url_token),
            );
            let json = source::is_json(text::text_of(request.content_type));
            let channel = request.channel_header is Some || request.channel_query is Some;
            &&& verdict matches Err(e) ==> error == Some(e)
            &&& error == Some(ApiError::MissingChannel) <==> verdict is Ok
                && request.channel_header is None && request.channel_query is None
            &&& error == Some(ApiError::UnsupportedContentType) <==> verdict is Ok && channel
                && !json
            &&& error == Some(ApiError::BadRequest) <==> verdict is Ok && channel && json
                && request.acks is None
            &&& error == Some(ApiError::AckIsDisabled) <==> verdict is Ok && channel && json
                && request.acks is Some && !acknowledgements
        }),
{
}

/// A setting of the source chooses the namespace, and the global one counts where there is none.
pub proof fn law_settings_choose_the_namespace(global: LogNamespace)
    ensures
        config::chosen_namespace(Some(true), global) == LogNamespace::Vector,
        config::chosen_namespace(Some(false), global) == LogNamespace::Legacy,
        config::chosen_namespace(None, global) == global,
{
}

/// In the Vector namespace the source declares its metadata, and nothing of the event itself.
pub proof fn law_declarations_of_the_vector_namespace(schema: SchemaView)
    ensures
        ({
            let beside = |prefix: Seq<char>, name: Seq<char>, kind: Kind, meaning: Option<Meaning>|
                DeclaredView { place: Place::Metadata, path: seq![prefix, name], kind, meaning };
            let own = "splunk_hec_full"@;
            config::declared_fields(LogNamespace::Vector, schema) == seq![
                beside("vector"@, "source_type"@, Kind::Bytes, None),
                beside("vector"@, "ingest_timestamp"@, Kind::Timestamp, None),
                beside(own, "host"@, Kind::Bytes, Some(Meaning::Host)),
                beside(own, "channel"@, Kind::Bytes, None),
                beside(own, "index"@, Kind::Bytes, None),
                beside(own, "source"@, Kind::Bytes, Some(Meaning::Service)),
                beside(own, "sourcetype"@, Kind::Bytes, None),
            ]
        }),
{
    let beside = |prefix: Seq<char>, name: Seq<char>, kind: Kind, meaning: Option<Meaning>|
        DeclaredView { place: Place::Metadata, path: seq![prefix, name], kind, meaning };
    let own = "splunk_hec_full"@;
    assert(config::declared_fields(LogNamespace::Vector, schema) =~= seq![
        beside("vector"@, "source_type"@, Kind::Bytes, None),
        beside("vector"@, "ingest_timestamp"@, Kind::Timestamp, None),
        beside(own, "host"@, Kind::Bytes, Some(Meaning::Host)),
        beside(own, "channel"@, Kind::Bytes, None),
        beside(own, "index"@, Kind::Bytes, None),
        beside(own, "source"@, Kind::Bytes, Some(Meaning::Service)),
        beside(own, "sourcetype"@, Kind::Bytes, None),
    ]);
}

/// In the Legacy namespace the source declares `line`, the message and its metadata as fields of
/// the event, each at the path that the schema or the source has for it.
pub proof fn law_declarations_of_the_legacy_namespace(
    message: Seq<Seq<char>>,
    host: Seq<Seq<char>>,
    timestamp: Seq<Seq<char>>,
    source_type: Seq<Seq<char>>,
)
    ensures
        ({
            let schema = SchemaView {
                message_key: Some(message),
                host_key: Some(host),
                timestamp_key: Some(timestamp),
                source_type_key: Some(source_type),
            };
            let inside = |path: Seq<Seq<char>>, kind: Kind, meaning: Option<Meaning>|
                DeclaredView { place: Place::Event, path, kind, meaning };
            config::declared_fields(LogNamespace::Legacy, schema) == seq![
                inside(seq!["line"@], Kind::ObjectOrArrayOrUndefined, None),
                inside(message, Kind::BytesOrUndefined, Some(Meaning::Message)),
                inside(source_type, Kind::Bytes, None),
                inside(timestamp, Kind::Timestamp, None),
                inside(host, Kind::Bytes, Some(Meaning::Host)),
                inside(seq!["splunk_channel"@], Kind::Bytes, None),
                inside(seq!["splunk_index"@], Kind::Bytes, None),
                inside(seq!["splunk_source"@], Kind::Bytes, Some(Meaning::Service)),
                inside(seq!["splunk_sourcetype"@], Kind::Bytes, None),
            ]
        }),
{
    let schema = SchemaView {
        message_key: Some(message),
        host_key: Some(host),
        timestamp_key: Some(timestamp),
        source_type_key: Some(source_type),
    };
    let inside = |path: Seq<Seq<char>>, kind: Kind, meaning: Option<Meaning>|
        DeclaredView { place: Place::Event, path, kind, meaning };
    assert(config::declared_fields(LogNamespace::Legacy, schema) =~= seq![
        inside(seq!["line"@], Kind::ObjectOrArrayOrUndefined, None),
        inside(message, Kind::BytesOrUndefined, Some(Meaning::Message)),
        inside(source_type, Kind::Bytes, None),
        inside(timestamp, Kind::Timestamp, None),
        inside(host, Kind::Bytes, Some(Meaning::Host)),
        inside(seq!["splunk_channel"@], Kind::Bytes, None),
        inside(seq!["splunk_index"@], Kind::Bytes, None),
        inside(seq!["splunk_source"@], Kind::Bytes, Some(Meaning::Service)),
        inside(seq!["splunk_sourcetype"@], Kind::Bytes, None),
    ]);
}

/// A key that the schema does not have keeps its field out of the declarations of the Legacy
/// namespace, and leaves the others.
pub proof fn law_unset_keys_declare_nothing(schema: SchemaView)
    ensures
        ({
            let all = config::declared_fields(LogNamespace::Legacy, schema);
            let set = |key: Option<Seq<Seq<char>>>| if key is Some {
                1int
            } else {
                0int
            };
            all.len() == 5 + set(schema.message_key) + set(schema.source_type_key) + set(
                schema.timestamp_key,
            ) + set(schema.host_key)
        }),
{
}

/// An answer shows its status, the methods that it says are allowed, and what it carries.
pub proof fn law_answers_show_what_they_hold(reply: Reply)
    ensures
        reply@.status == reply.status,
        reply.allow is None ==> reply@.allow is None,
        reply.allow matches Some(methods) ==> reply@.allow == Some(methods@),
        match reply.body {
            Body::Empty => reply@.body == BodyView::Empty,
            Body::Plain(words) => reply@.body == BodyView::Plain(words@),
            Body::Outcome(told) => reply@.body == BodyView::Outcome(
                HecResponseView { text: told.text@, code: told.code, metadata: told.metadata },
            ),
            Body::Health(words, code) => reply@.body == BodyView::Health(words@, code),
            Body::Acks(acks) => reply@.body == BodyView::Acks(acks@),
        },
{
}

} // verus!
