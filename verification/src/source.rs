//! What the endpoints decide about a request as a whole.
use vstd::prelude::*;

use crate::auth;
use crate::auth::{authorize, is_valid};
use crate::config;
use crate::config::SplunkHecFullConfig;
use crate::log_event::LogNamespace;
use crate::response;
use crate::response::{finish_err, response_health, ApiError, Body, BodyView, Reply, ReplyView};
use crate::text;

verus! {

/// Shared data for responding to requests.
#[derive(Debug)]
pub struct SplunkSource {
    pub valid_credentials: Vec<String>,
    /// Whether delivery is acknowledged by id
    pub acknowledgements: bool,
    pub store_hec_token: bool,
    pub log_namespace: LogNamespace,
    pub allow_query_string_auth: bool,
    pub auto_forward_metadata: bool,
    pub fix_bare_string_events: bool,
    pub raw_require_channel: bool,
    pub raw_line_splitting: bool,
}

/// The tokens that a configuration makes valid.
pub open spec fn configured_tokens(config: SplunkHecFullConfig) -> Seq<Seq<char>> {
    (match config.valid_tokens {
        Some(tokens) => auth::texts(tokens@),
        None => Seq::empty(),
    }) + (match config.token {
        Some(token) => seq![token@],
        None => Seq::empty(),
    })
}

/// The credentials that go with tokens.
pub open spec fn credentials(tokens: Seq<Seq<char>>) -> Seq<Seq<char>> {
    tokens.map_values(|token: Seq<char>| auth::credential(token))
}

/// Query parameters for the health endpoint.
#[derive(Debug)]
pub struct HealthQueryParams {
    pub token: Option<String>,
    pub ack: Option<String>,
}

/// Query parameters for the event endpoint.
#[derive(Debug)]
pub struct EventQueryParams {
    pub channel: Option<String>,
    pub token: Option<String>,
    pub auto_extract_timestamp: Option<String>,
}

/// Whether a query parameter asks for something.
pub open spec fn asks(param: Option<Seq<char>>) -> bool {
    param == Some("true"@) || param == Some("1"@)
}

/// Whether a query parameter asks for something.
fn is_asked(param: &Option<String>) -> (b: bool)
    ensures
        b == asks(text::text_of(*param)),
{
    match param {
        Some(s) => text::str_eq(s.as_str(), "true") || text::str_eq(s.as_str(), "1"),
        None => false,
    }
}

impl HealthQueryParams {
    /// Returns true if ack check is requested (?ack=true or ?ack=1)
    pub fn ack_enabled(&self) -> (b: bool)
        ensures
            b == asks(text::text_of(self.ack)),
    {
        is_asked(&self.ack)
    }
}

impl EventQueryParams {
    /// Returns true if time extraction is requested (?auto_extract_timestamp=true or 1)
    pub fn auto_extract_timestamp_enabled(&self) -> (b: bool)
        ensures
            b == asks(text::text_of(self.auto_extract_timestamp)),
    {
        is_asked(&self.auto_extract_timestamp)
    }
}

/// Is body encoded with gzip
pub fn gzip(encoding: &Option<String>) -> (packed: Result<bool, ApiError>)
    ensures
        packed == gzip_asked(text::text_of(*encoding)),
{
    match encoding {
        Some(s) => if text::str_eq(s.as_str(), "gzip") {
            Ok(true)
        } else {
            Err(ApiError::UnsupportedEncoding)
        },
        None => Ok(false),
    }
}

/// Whether an encoding is gzip. No other is supported.
pub open spec fn gzip_asked(encoding: Option<Seq<char>>) -> Result<bool, ApiError> {
    match encoding {
        Some(s) => if s == "gzip"@ {
            Ok(true)
        } else {
            Err(ApiError::UnsupportedEncoding)
        },
        None => Ok(false),
    }
}

/// The channel of a request: of its header, else of its query.
pub fn required_channel(header: Option<String>, query: Option<String>) -> (channel: Result<
    String,
    ApiError,
>)
    ensures
        match channel {
            Ok(channel) => Some(channel@) == crate::events::first_of(
                text::text_of(header),
                text::text_of(query),
            ),
            Err(e) => header is None && query is None && e == ApiError::MissingChannel,
        },
{
    match header {
        Some(channel) => Ok(channel),
        None => match query {
            Some(channel) => Ok(channel),
            None => Err(ApiError::MissingChannel),
        },
    }
}

/// Whether a content type is that of JSON, in whatever case and with whatever parameters. None is
/// as good.
pub open spec fn is_json(content_type: Option<Seq<char>>) -> bool {
    match content_type {
        Some(s) => text::occurs_in("application/json"@, text::ascii_lowered(s)),
        None => true,
    }
}

/// Checks that a content type is that of JSON, in whatever case and with whatever parameters.
pub fn lenient_json_content_type_check(content_type: &Option<String>) -> (ok: Result<(), ApiError>)
    ensures
        ok == if is_json(text::text_of(*content_type)) {
            Ok(())
        } else {
            Err(ApiError::UnsupportedContentType)
        },
{
    match content_type {
        Some(s) => {
            let lower = text::lowered(text::chars_of(s.as_str()).as_slice());
            if text::contains(
                lower.as_slice(),
                text::chars_of("application/json").as_slice(),
            ) {
                Ok(())
            } else {
                Err(ApiError::UnsupportedContentType)
            }
        },
        None => Ok(()),
    }
}

/// The answer of the health endpoint: whether the token it was given is valid, if it was given
/// one and tokens are configured; whether ids for delivery are to be had, if it was asked; else
/// that all is well.
pub open spec fn health_reply(
    valid: Seq<Seq<char>>,
    acknowledgements: bool,
    token: Option<Seq<char>>,
    ack: Option<Seq<char>>,
) -> ReplyView {
    if valid.len() > 0 && token is Some && !valid.contains(auth::credential(token->0)) {
        response::reply(400, BodyView::Health("Invalid token"@, 4))
    } else if asks(ack) && !acknowledgements {
        response::reply(503, BodyView::Health("ACK is disabled"@, 14))
    } else {
        response::reply(200, BodyView::Health("HEC is healthy"@, 17))
    }
}

/// A question whether events were delivered.
#[derive(Debug)]
pub struct AckRequest {
    pub authorization: Option<String>,
    pub url_token: Option<String>,
    pub channel_header: Option<String>,
    pub channel_query: Option<String>,
    pub content_type: Option<String>,
    /// The ids that the body asks about, where it can be read
    pub acks: Option<Vec<u64>>,
}

/// What to do about a question whether events were delivered.
#[derive(Debug)]
pub enum AckStep {
    /// Look up the ids of a channel
    Status { channel: String, acks: Vec<u64> },
    Respond(Reply),
}

/// What is wrong with a question whether events were delivered, if anything is.
pub open spec fn ack_error(
    valid: Seq<Seq<char>>,
    allow_query_string_auth: bool,
    acknowledgements: bool,
    request: AckRequest,
) -> Option<ApiError> {
    match auth::authorized(
        valid,
        allow_query_string_auth,
        text::text_of(request.authorization),
        text::text_of(request.url_token),
    ) {
        Err(e) => Some(e),
        Ok(_) => if request.channel_header is None && request.channel_query is None {
            Some(ApiError::MissingChannel)
        } else if !is_json(text::text_of(request.content_type)) {
            Some(ApiError::UnsupportedContentType)
        } else if request.acks is None {
            Some(ApiError::BadRequest)
        } else if !acknowledgements {
            Some(ApiError::AckIsDisabled)
        } else {
            None
        },
    }
}

impl SplunkSource {
    /// The source that a configuration describes. `global_log_namespace` and `acknowledgements`
    /// are what the configuration of the whole asks for.
    pub fn new(
        config: &SplunkHecFullConfig,
        global_log_namespace: LogNamespace,
        acknowledgements: bool,
    ) -> (source: Self)
        ensures
            auth::texts(source.valid_credentials@) == credentials(configured_tokens(*config)),
            source.acknowledgements == match config.acknowledgements {
                Some(enabled) => enabled,
                None => acknowledgements,
            },
            source.store_hec_token == config.store_hec_token,
            source.log_namespace == config::chosen_namespace(
                config.log_namespace,
                global_log_namespace,
            ),
            source.allow_query_string_auth == config.allow_query_string_auth,
            source.auto_forward_metadata == config.auto_forward_metadata,
            source.fix_bare_string_events == config.fix_bare_string_events,
            source.raw_require_channel == config.raw_require_channel,
            source.raw_line_splitting == config.raw_line_splitting,
    {
        let mut valid_credentials: Vec<String> = Vec::new();
        assert(auth::texts(valid_credentials@) =~= Seq::empty());
        let ghost mut tokens: Seq<Seq<char>> = Seq::empty();
        match &config.valid_tokens {
            Some(valid_tokens) => {
                for i in 0..valid_tokens.len()
                    invariant
                        auth::texts(valid_credentials@) =~= credentials(
                            auth::texts(valid_tokens@).take(i as int),
                        ),
                {
                    let ghost before = valid_credentials@;
                    let credential = text::concat("Splunk ", valid_tokens[i].as_str());
                    valid_credentials.push(credential);
                    assert(auth::texts(valid_credentials@) =~= auth::texts(before).push(
                        credential@,
                    ));
                    assert(credentials(auth::texts(valid_tokens@).take(i + 1)) =~= credentials(
                        auth::texts(valid_tokens@).take(i as int),
                    ).push(credential@));
                }
                proof {
                    tokens = auth::texts(valid_tokens@);
                    assert(tokens.take(tokens.len() as int) =~= tokens);
                }
            },
            None => {
                assert(credentials(tokens) =~= Seq::empty());
            },
        }
        match &config.token {
            Some(token) => {
                let ghost before = valid_credentials@;
                let credential = text::concat("Splunk ", token.as_str());
                valid_credentials.push(credential);
                proof {
                    assert(auth::texts(valid_credentials@) =~= auth::texts(before).push(
                        credential@,
                    ));
                    assert(credentials(tokens + seq![token@]) =~= credentials(tokens).push(
                        credential@,
                    ));
                }
            },
            None => {
                assert(tokens + Seq::<Seq<char>>::empty() =~= tokens);
            },
        }
        SplunkSource {
            valid_credentials,
            acknowledgements: match config.acknowledgements {
                Some(enabled) => enabled,
                None => acknowledgements,
            },
            store_hec_token: config.store_hec_token,
            log_namespace: global_log_namespace.merge(config.log_namespace),
            allow_query_string_auth: config.allow_query_string_auth,
            auto_forward_metadata: config.auto_forward_metadata,
            fix_bare_string_events: config.fix_bare_string_events,
            raw_require_channel: config.raw_require_channel,
            raw_line_splitting: config.raw_line_splitting,
        }
    }

    /// Authorize request - supports both Authorization header and URL ?token= query parameter
    pub fn authorization(&self, header: Option<String>, url_token: Option<String>) -> (verdict:
        Result<Option<String>, ApiError>)
        ensures
            auth::verdict_view(verdict) == auth::authorized(
                auth::texts(self.valid_credentials@),
                self.allow_query_string_auth,
                text::text_of(header),
                text::text_of(url_token),
            ),
    {
        authorize(&self.valid_credentials, self.allow_query_string_auth, header, url_token)
    }

    /// Answers whether the service is healthy.
    pub fn health_service(&self, params: &HealthQueryParams) -> (r: Reply)
        ensures
            r@ == health_reply(
                auth::texts(self.valid_credentials@),
                self.acknowledgements,
                text::text_of(params.token),
                text::text_of(params.ack),
            ),
    {
        match &params.token {
            Some(token) => {
                let credential = text::concat("Splunk ", token.as_str());
                if self.valid_credentials.len() > 0 && !is_valid(
                    &self.valid_credentials,
                    credential.as_str(),
                ) {
                    return response_health(400, "Invalid token", 4);
                }
            },
            None => {},
        }
        if params.ack_enabled() && !self.acknowledgements {
            return response_health(503, "ACK is disabled", 14);
        }
        response_health(200, "HEC is healthy", 17)
    }

    /// Decides what to do about a question whether events were delivered.
    pub fn ack_service(&self, request: AckRequest) -> (step: AckStep)
        ensures
            match ack_error(
                auth::texts(self.valid_credentials@),
                self.allow_query_string_auth,
                self.acknowledgements,
                request,
            ) {
                Some(e) => step matches AckStep::Respond(r) && r@ == response::error_reply(e),
                None => {
                    &&& step matches AckStep::Status { channel, acks }
                    &&& Some(channel@) == crate::events::first_of(
                        text::text_of(request.channel_header),
                        text::text_of(request.channel_query),
                    )
                    &&& Some(acks) == request.acks
                },
            },
            step is Status <==> {
                &&& auth::authorized(
                    auth::texts(self.valid_credentials@),
                    self.allow_query_string_auth,
                    text::text_of(request.authorization),
                    text::text_of(request.url_token),
                ) is Ok
                &&& request.channel_header is Some || request.channel_query is Some
                &&& is_json(text::text_of(request.content_type))
                &&& request.acks is Some
                &&& self.acknowledgements
            },
            step matches AckStep::Status { channel, acks: _ } ==> match request.channel_header {
                Some(named) => channel@ == named@,
                None => request.channel_query matches Some(named) && channel@ == named@,
            },
    {
        match self.authorization(request.authorization, request.url_token) {
            Err(e) => return AckStep::Respond(finish_err(e)),
            Ok(_) => {},
        }
        let channel = match required_channel(request.channel_header, request.channel_query) {
            Ok(channel) => channel,
            Err(e) => return AckStep::Respond(finish_err(e)),
        };
        match lenient_json_content_type_check(&request.content_type) {
            Ok(()) => {},
            Err(e) => return AckStep::Respond(finish_err(e)),
        }
        match request.acks {
            Some(acks) => if self.acknowledgements {
                AckStep::Status { channel, acks }
            } else {
                AckStep::Respond(finish_err(ApiError::AckIsDisabled))
            },
            None => AckStep::Respond(finish_err(ApiError::BadRequest)),
        }
    }
}

/// Answers a question whether events were delivered with what the look-up gave.
pub fn ack_reply(status: Result<Vec<(u64, bool)>, ApiError>) -> (r: Reply)
    ensures
        r@ == match status {
            Ok(acks) => response::reply(200, BodyView::Acks(acks@)),
            Err(e) => response::error_reply(e),
        },
{
    match status {
        Ok(acks) => Reply { status: 200, allow: None, body: Body::Acks(acks) },
        Err(e) => finish_err(e),
    }
}

} // verus!
