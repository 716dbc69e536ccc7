//! What goes wrong with a request, and how requests are answered.
use vstd::prelude::*;

verus! {

/// What is wrong with a request. Errors in a body name the event by the number of events that came
/// before it.
#[derive(Clone, Copy, Debug, PartialEq, Eq, Structural)]
pub enum ApiError {
    MissingAuthorization,
    InvalidAuthorization,
    UnsupportedEncoding,
    UnsupportedContentType,
    MissingChannel,
    NoData,
    InvalidDataFormat { event: usize },
    ServerShutdown,
    EmptyEventField { event: usize },
    MissingEventField { event: usize },
    BadRequest,
    ServiceUnavailable,
    AckIsDisabled,
}

/// The outcomes that Splunk HEC has a number for.
#[derive(Clone, Copy, Debug, PartialEq, Eq, Structural)]
pub enum HecStatusCode {
    Success,
    TokenIsRequired,
    InvalidAuthorization,
    NoData,
    InvalidDataFormat,
    ServerIsBusy,
    DataChannelIsMissing,
    EventFieldIsRequired,
    EventFieldCannotBeBlank,
    AckIsDisabled,
}

/// What an answer may add: the id under which delivery can be asked for, or the number of the
/// event that was refused.
#[derive(Clone, Copy, Debug, PartialEq, Eq, Structural)]
pub enum HecResponseMetadata {
    AckId(u64),
    InvalidEventNumber(usize),
}

/// The body of an answer.
#[derive(Clone, Copy, Debug)]
pub struct HecResponse {
    pub text: &'static str,
    pub code: u8,
    pub metadata: Option<HecResponseMetadata>,
}

/// The body of an answer, with its text as a sequence.
pub struct HecResponseView {
    pub text: Seq<char>,
    pub code: u8,
    pub metadata: Option<HecResponseMetadata>,
}

impl View for HecResponse {
    type V = HecResponseView;

    open spec fn view(&self) -> HecResponseView {
        HecResponseView { text: self.text@, code: self.code, metadata: self.metadata }
    }
}

/// The number that Splunk HEC gives to an outcome.
pub open spec fn status_number(code: HecStatusCode) -> u8 {
    match code {
        HecStatusCode::Success => 0,
        HecStatusCode::TokenIsRequired => 2,
        HecStatusCode::InvalidAuthorization => 3,
        HecStatusCode::NoData => 5,
        HecStatusCode::InvalidDataFormat => 6,
        HecStatusCode::ServerIsBusy => 9,
        HecStatusCode::DataChannelIsMissing => 10,
        HecStatusCode::EventFieldIsRequired => 12,
        HecStatusCode::EventFieldCannotBeBlank => 13,
        HecStatusCode::AckIsDisabled => 14,
    }
}

/// The words for an outcome.
pub open spec fn status_text(code: HecStatusCode) -> Seq<char> {
    match code {
        HecStatusCode::Success => "Success"@,
        HecStatusCode::TokenIsRequired => "Token is required"@,
        HecStatusCode::InvalidAuthorization => "Invalid authorization"@,
        HecStatusCode::NoData => "No data"@,
        HecStatusCode::InvalidDataFormat => "Invalid data format"@,
        HecStatusCode::ServerIsBusy => "Server is busy"@,
        HecStatusCode::DataChannelIsMissing => "Data channel is missing"@,
        HecStatusCode::EventFieldIsRequired => "Event field is required"@,
        HecStatusCode::EventFieldCannotBeBlank => "Event field cannot be blank"@,
        HecStatusCode::AckIsDisabled => "Ack is disabled"@,
    }
}

/// The body that tells of an outcome.
pub open spec fn response_for(
    code: HecStatusCode,
    metadata: Option<HecResponseMetadata>,
) -> HecResponseView {
    HecResponseView { text: status_text(code), code: status_number(code), metadata }
}

impl HecResponse {
    /// The body that tells of an outcome.
    pub fn new(code: HecStatusCode) -> (response: Self)
        ensures
            response@ == response_for(code, None),
            response.metadata is None,
    {
        let (text, code): (&'static str, u8) = match code {
            HecStatusCode::Success => ("Success", 0),
            HecStatusCode::TokenIsRequired => ("Token is required", 2),
            HecStatusCode::InvalidAuthorization => ("Invalid authorization", 3),
            HecStatusCode::NoData => ("No data", 5),
            HecStatusCode::InvalidDataFormat => ("Invalid data format", 6),
            HecStatusCode::ServerIsBusy => ("Server is busy", 9),
            HecStatusCode::DataChannelIsMissing => ("Data channel is missing", 10),
            HecStatusCode::EventFieldIsRequired => ("Event field is required", 12),
            HecStatusCode::EventFieldCannotBeBlank => ("Event field cannot be blank", 13),
            HecStatusCode::AckIsDisabled => ("Ack is disabled", 14),
        };
        HecResponse { text, code, metadata: None }
    }

    /// The same body with something added.
    pub fn with_metadata(self, metadata: HecResponseMetadata) -> (response: Self)
        ensures
            response@ == (HecResponseView { metadata: Some(metadata), ..self@ }),
            response.metadata == Some(metadata),
    {
        HecResponse { text: self.text, code: self.code, metadata: Some(metadata) }
    }

    /// The words of the body.
    pub fn text(&self) -> (text: &'static str)
        ensures
            text@ == self@.text,
    {
        self.text
    }

    /// The number of the body.
    pub fn code(&self) -> (code: u8)
        ensures
            code == self@.code,
    {
        self.code
    }
}

/// What an answer carries.
#[derive(Debug)]
pub enum Body {
    Empty,
    /// Plain text.
    Plain(&'static str),
    /// JSON that tells of an outcome.
    Outcome(HecResponse),
    /// JSON that tells of the health of the service: words and a number.
    Health(&'static str, u8),
    /// JSON that tells, by id, what was delivered.
    Acks(Vec<(u64, bool)>),
}

/// What an answer carries, with its texts as sequences.
pub enum BodyView {
    Empty,
    Plain(Seq<char>),
    Outcome(HecResponseView),
    Health(Seq<char>, u8),
    Acks(Seq<(u64, bool)>),
}

/// An answer: an HTTP status, the methods it says are allowed, and a body.
#[derive(Debug)]
pub struct Reply {
    pub status: u16,
    pub allow: Option<&'static str>,
    pub body: Body,
}

/// An answer, with its texts as sequences.
pub struct ReplyView {
    pub status: u16,
    pub allow: Option<Seq<char>>,
    pub body: BodyView,
}

impl View for Body {
    type V = BodyView;

    open spec fn view(&self) -> BodyView {
        match self {
            Body::Empty => BodyView::Empty,
            Body::Plain(text) => BodyView::Plain(text@),
            Body::Outcome(response) => BodyView::Outcome(response@),
            Body::Health(text, code) => BodyView::Health(text@, *code),
            Body::Acks(acks) => BodyView::Acks(acks@),
        }
    }
}

impl View for Reply {
    type V = ReplyView;

    open spec fn view(&self) -> ReplyView {
        ReplyView {
            status: self.status,
            allow: match self.allow {
                Some(methods) => Some(methods@),
                None => None,
            },
            body: self.body@,
        }
    }
}

/// The answer with this status and body.
pub open spec fn reply(status: u16, body: BodyView) -> ReplyView {
    ReplyView { status, allow: None, body }
}

/// Answers with JSON that tells of an outcome.
pub fn response_json(status: u16, body: HecResponse) -> (r: Reply)
    ensures
        r@ == reply(status, BodyView::Outcome(body@)),
{
    Reply { status, allow: None, body: Body::Outcome(body) }
}

/// Answers with JSON that tells of the health of the service.
pub fn response_health(status: u16, text: &'static str, code: u8) -> (r: Reply)
    ensures
        r@ == reply(status, BodyView::Health(text@, code)),
{
    Reply { status, allow: None, body: Body::Health(text, code) }
}

/// Answers with plain text.
pub fn response_plain(status: u16, text: &'static str) -> (r: Reply)
    ensures
        r@ == reply(status, BodyView::Plain(text@)),
{
    Reply { status, allow: None, body: Body::Plain(text) }
}

/// Answers without a body.
pub fn empty_response(status: u16) -> (r: Reply)
    ensures
        r@ == reply(status, BodyView::Empty),
{
    Reply { status, allow: None, body: Body::Empty }
}

/// The answer to a request that was accepted.
pub open spec fn ok_reply(ack_id: Option<u64>) -> ReplyView {
    reply(
        200,
        BodyView::Outcome(
            response_for(
                HecStatusCode::Success,
                match ack_id {
                    Some(id) => Some(HecResponseMetadata::AckId(id)),
                    None => None,
                },
            ),
        ),
    )
}

/// Answers a request that was accepted.
pub fn finish_ok(maybe_ack_id: Option<u64>) -> (r: Reply)
    ensures
        r@ == ok_reply(maybe_ack_id),
{
    let body = HecResponse::new(HecStatusCode::Success);
    match maybe_ack_id {
        Some(id) => response_json(200, body.with_metadata(HecResponseMetadata::AckId(id))),
        None => response_json(200, body),
    }
}

/// The answer to a request that was refused.
pub open spec fn error_reply(error: ApiError) -> ReplyView {
    match error {
        ApiError::MissingAuthorization => refusal(401, HecStatusCode::TokenIsRequired, None),
        ApiError::InvalidAuthorization => refusal(401, HecStatusCode::InvalidAuthorization, None),
        ApiError::UnsupportedEncoding => reply(415, BodyView::Empty),
        ApiError::UnsupportedContentType => reply(
            415,
            BodyView::Plain("The request's content-type is not supported"@),
        ),
        ApiError::MissingChannel => refusal(400, HecStatusCode::DataChannelIsMissing, None),
        ApiError::NoData => refusal(400, HecStatusCode::NoData, None),
        ApiError::ServerShutdown => reply(503, BodyView::Empty),
        ApiError::InvalidDataFormat { event } => refusal(
            400,
            HecStatusCode::InvalidDataFormat,
            Some(event),
        ),
        ApiError::EmptyEventField { event } => refusal(
            400,
            HecStatusCode::EventFieldCannotBeBlank,
            Some(event),
        ),
        ApiError::MissingEventField { event } => refusal(
            400,
            HecStatusCode::EventFieldIsRequired,
            Some(event),
        ),
        ApiError::BadRequest => reply(400, BodyView::Empty),
        ApiError::ServiceUnavailable => refusal(503, HecStatusCode::ServerIsBusy, None),
        ApiError::AckIsDisabled => refusal(400, HecStatusCode::AckIsDisabled, None),
    }
}

/// The answer with this status that tells of an outcome, and of the event it is about.
pub open spec fn refusal(status: u16, code: HecStatusCode, event: Option<usize>) -> ReplyView {
    reply(
        status,
        BodyView::Outcome(
            response_for(
                code,
                match event {
                    Some(n) => Some(HecResponseMetadata::InvalidEventNumber(n)),
                    None => None,
                },
            ),
        ),
    )
}

/// Answers a request that was refused.
pub fn finish_err(error: ApiError) -> (r: Reply)
    ensures
        r@ == error_reply(error),
{
    match error {
        ApiError::MissingAuthorization => response_json(
            401,
            HecResponse::new(HecStatusCode::TokenIsRequired),
        ),
        ApiError::InvalidAuthorization => response_json(
            401,
            HecResponse::new(HecStatusCode::InvalidAuthorization),
        ),
        ApiError::UnsupportedEncoding => empty_response(415),
        ApiError::UnsupportedContentType => response_plain(
            415,
            "The request's content-type is not supported",
        ),
        ApiError::MissingChannel => response_json(
            400,
            HecResponse::new(HecStatusCode::DataChannelIsMissing),
        ),
        ApiError::NoData => response_json(400, HecResponse::new(HecStatusCode::NoData)),
        ApiError::ServerShutdown => empty_response(503),
        ApiError::InvalidDataFormat { event } => response_json(
            400,
            HecResponse::new(HecStatusCode::InvalidDataFormat).with_metadata(
                HecResponseMetadata::InvalidEventNumber(event),
            ),
        ),
        ApiError::EmptyEventField { event } => response_json(
            400,
            HecResponse::new(HecStatusCode::EventFieldCannotBeBlank).with_metadata(
                HecResponseMetadata::InvalidEventNumber(event),
            ),
        ),
        ApiError::MissingEventField { event } => response_json(
            400,
            HecResponse::new(HecStatusCode::EventFieldIsRequired).with_metadata(
                HecResponseMetadata::InvalidEventNumber(event),
            ),
        ),
        ApiError::BadRequest => empty_response(400),
        ApiError::ServiceUnavailable => response_json(
            503,
            HecResponse::new(HecStatusCode::ServerIsBusy),
        ),
        ApiError::AckIsDisabled => response_json(
            400,
            HecResponse::new(HecStatusCode::AckIsDisabled),
        ),
    }
}

/// A request is answered with status 200 exactly if it was accepted.
pub proof fn law_only_accepted_requests_succeed(error: ApiError, ack_id: Option<u64>)
    ensures
        ok_reply(ack_id).status == 200,
        400 <= error_reply(error).status < 600,
{
}

/// Different outcomes have different numbers.
pub proof fn law_status_numbers_differ(a: HecStatusCode, b: HecStatusCode)
    requires
        a != b,
    ensures
        status_number(a) != status_number(b),
{
}

} // verus!
