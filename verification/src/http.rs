//! The HTTP side of the service: who may ask, what is asked, and what is answered.

use crate::domain::{byte_len, first_fault, DomainError, DomainErrorView, Event};
use crate::headers::{first_header, header_text, header_text_is, header_values, lower_case};
use crate::json::json_text;
use crate::metrics::Counter;
use crate::pipeline::EventSendError;
use crate::storage::{EventOutcome, StorageError};
use crate::text::{decimal, decimal_text};
use axum::http::{HeaderMap, HeaderValue};
use serde_json::Value;
use vstd::prelude::*;
use vstd::string::StringExecFns;

verus! {

/// The largest request body, in bytes.
pub const BODY_LIMIT: usize = 1048576;

/// The number of requests that are served at the same time.
pub const CONCURRENCY_LIMIT: usize = 100;

/// The time that a request may take, in seconds.
pub const REQUEST_TIMEOUT_SECS: u64 = 5;

/// The status of a response.
#[derive(Debug, Clone, Copy, PartialEq, Eq, Structural)]
pub enum StatusCode {
    Success,
    Created,
    BadRequest,
    Unauthorized,
    NotFound,
    RequestTimeout,
    Conflict,
    InternalServerError,
    ServiceUnavailable,
}

impl StatusCode {
    /// The number of the status.
    pub open spec fn number(self) -> u16 {
        match self {
            StatusCode::Success => 200,
            StatusCode::Created => 201,
            StatusCode::BadRequest => 400,
            StatusCode::Unauthorized => 401,
            StatusCode::NotFound => 404,
            StatusCode::RequestTimeout => 408,
            StatusCode::Conflict => 409,
            StatusCode::InternalServerError => 500,
            StatusCode::ServiceUnavailable => 503,
        }
    }

    /// Gives the number of the status.
    pub fn as_u16(self) -> (number: u16)
        ensures
            number == self.number(),
    {
        match self {
            StatusCode::Success => 200,
            StatusCode::Created => 201,
            StatusCode::BadRequest => 400,
            StatusCode::Unauthorized => 401,
            StatusCode::NotFound => 404,
            StatusCode::RequestTimeout => 408,
            StatusCode::Conflict => 409,
            StatusCode::InternalServerError => 500,
            StatusCode::ServiceUnavailable => 503,
        }
    }
}

/// The methods that the service answers.
#[derive(Debug, Clone, Copy, PartialEq, Eq, Structural)]
pub enum Method {
    Get,
    Post,
}

/// What the service can be asked.
#[derive(Debug, Clone, Copy, PartialEq, Eq, Structural)]
pub enum Endpoint {
    CreateEvent,
    GetEvent,
    Metrics,
    Health,
    Ready,
}

/// Where an endpoint is found, and whether it asks for the API key.
pub struct Route {
    pub method: Method,
    pub path: &'static str,
    pub protected: bool,
}

impl Endpoint {
    /// Whether the endpoint reads or writes events.
    pub open spec fn handles_events(self) -> bool {
        self == Endpoint::CreateEvent || self == Endpoint::GetEvent
    }

    /// The path of the endpoint.
    pub open spec fn path_view(self) -> Seq<char> {
        match self {
            Endpoint::CreateEvent => "/v1/events"@,
            Endpoint::GetEvent => "/v1/events/{id}"@,
            Endpoint::Metrics => "/metrics"@,
            Endpoint::Health => "/health"@,
            Endpoint::Ready => "/ready"@,
        }
    }

    /// Gives the route of the endpoint. Exactly the endpoints that handle events are protected.
    pub fn route(self) -> (route: Route)
        ensures
            route.method == (if self == Endpoint::CreateEvent {
                Method::Post
            } else {
                Method::Get
            }),
            route.path@ == self.path_view(),
            route.protected == self.handles_events(),
    {
        match self {
            Endpoint::CreateEvent => Route {
                method: Method::Post,
                path: "/v1/events",
                protected: true,
            },
            Endpoint::GetEvent => Route {
                method: Method::Get,
                path: "/v1/events/{id}",
                protected: true,
            },
            Endpoint::Metrics => Route { method: Method::Get, path: "/metrics", protected: false },
            Endpoint::Health => Route { method: Method::Get, path: "/health", protected: false },
            Endpoint::Ready => Route { method: Method::Get, path: "/ready", protected: false },
        }
    }
}

/// The key that a caller must present.
pub struct AuthConfig {
    pub api_key: String,
}

/// The key that a request presents in its first `X-API-Key` header, if that is readable.
pub open spec fn presented_key(headers: HeaderMap<HeaderValue>) -> Option<Seq<char>> {
    if header_values(headers).contains_key("x-api-key"@) {
        header_text(header_values(headers)["x-api-key"@][0])
    } else {
        None
    }
}

/// Lets a request pass if the value of its key header, given as bytes, is the configured key.
pub fn check_api_key(auth_config: &AuthConfig, value: Option<&[u8]>) -> (result: Result<
    (),
    StatusCode,
>)
    ensures
        result == (if value matches Some(bytes) && header_text(bytes@) == Some(
            auth_config.api_key@,
        ) {
            Ok(())
        } else {
            Err(StatusCode::Unauthorized)
        }),
{
    match value {
        Some(bytes) => if header_text_is(bytes, auth_config.api_key.as_str()) {
            Ok(())
        } else {
            Err(StatusCode::Unauthorized)
        },
        None => Err(StatusCode::Unauthorized),
    }
}

/// Lets a request pass if it presents the configured key, and refuses any other with
/// `401 Unauthorized`.
pub fn require_api_key(auth_config: &AuthConfig, headers: &HeaderMap<HeaderValue>) -> (result:
    Result<(), StatusCode>)
    ensures
        result == (if presented_key(*headers) == Some(auth_config.api_key@) {
            Ok(())
        } else {
            Err(StatusCode::Unauthorized)
        }),
{
    proof {
        reveal_strlit("X-API-Key");
        reveal_strlit("x-api-key");
        assert(lower_case("X-API-Key"@) =~= "x-api-key"@);
    }
    match first_header(headers, "X-API-Key") {
        Some(bytes) => check_api_key(auth_config, Some(bytes.as_slice())),
        None => check_api_key(auth_config, None),
    }
}

/// What the layers around the handlers can fail with.
pub enum MiddlewareError {
    /// The request took too long.
    Elapsed,
    /// Too many requests are being served.
    Overloaded,
    /// Anything else.
    Other,
}

/// The status and the text that a request is answered when a layer around the handlers failed.
pub open spec fn middleware_answer(error: MiddlewareError) -> (StatusCode, Seq<char>) {
    match error {
        MiddlewareError::Elapsed => (StatusCode::RequestTimeout, "Request timed out."@),
        MiddlewareError::Overloaded => (
            StatusCode::ServiceUnavailable,
            "Server is overloaded. Please try again later."@,
        ),
        MiddlewareError::Other => (StatusCode::InternalServerError, "Internal server error"@),
    }
}

/// Answers a request when a layer around the handlers failed.
pub fn handle_middleware_errors(error: MiddlewareError) -> (answer: (StatusCode, String))
    ensures
        (answer.0, answer.1@) == middleware_answer(error),
{
    match error {
        MiddlewareError::Elapsed => (StatusCode::RequestTimeout, "Request timed out.".to_owned()),
        MiddlewareError::Overloaded => (
            StatusCode::ServiceUnavailable,
            "Server is overloaded. Please try again later.".to_owned(),
        ),
        MiddlewareError::Other => (
            StatusCode::InternalServerError,
            "Internal server error".to_owned(),
        ),
    }
}

/// The body of a request to create an event.
#[derive(Debug)]
pub struct CreateEventRequest {
    pub event_id: String,
    pub tenant_id: String,
    pub event_type: String,
    pub timestamp: u64,
    pub payload: Value,
}

impl CreateEventRequest {
    /// The first fault of the event that is asked for.
    pub open spec fn fault(self) -> Option<DomainErrorView> {
        first_fault(
            self.event_id@,
            self.tenant_id@,
            self.event_type@,
            self.timestamp,
            byte_len(json_text(self.payload)),
        )
    }

    /// Whether `event` is the event that is asked for.
    pub open spec fn asks_for(self, event: Event) -> bool {
        &&& event.event_id == self.event_id
        &&& event.tenant_id == self.tenant_id
        &&& event.event_type == self.event_type
        &&& event.event_timestamp == self.timestamp
        &&& event.payload == self.payload
    }

    /// Whether `result` is what the request comes to: the event that is asked for, or its first
    /// fault.
    pub open spec fn answered_by(self, result: Result<Event, DomainError>) -> bool {
        match result {
            Ok(event) => self.fault() is None && self.asks_for(event),
            Err(error) => self.fault() == Some(error@),
        }
    }
}

impl TryFrom<CreateEventRequest> for Event {
    type Error = DomainError;

    fn try_from(dto: CreateEventRequest) -> (result: Result<Self, DomainError>)
        ensures
            dto.answered_by(result),
    {
        Event::new(dto.event_id, dto.tenant_id, dto.event_type, dto.timestamp, dto.payload)
    }
}

impl vstd::std_specs::convert::TryFromSpecImpl<CreateEventRequest> for Event {
    open spec fn obeys_try_from_spec() -> bool {
        false
    }

    open spec fn try_from_spec(dto: CreateEventRequest) -> Result<Self, DomainError> {
        choose|result: Result<Event, DomainError>| dto.answered_by(result)
    }
}

/// Why a request was not served as asked.
#[derive(Debug)]
pub enum ApiError {
    Domain(DomainError),
    PipelineUnavailable,
    NotFound,
    Internal,
    Conflict,
}

/// The body of the answer to a request that breaks a rule.
#[derive(Debug, PartialEq, Eq)]
pub struct ApiErrorResponse {
    pub error: String,
}

/// The body of an answer.
#[derive(Debug, PartialEq, Eq)]
pub enum ResponseBody {
    Empty,
    Text(String),
    Json(ApiErrorResponse),
}

/// A [`ResponseBody`] as a mathematical value.
pub enum ResponseBodyView {
    Empty,
    Text(Seq<char>),
    Json { error: Seq<char> },
}

impl View for ResponseBody {
    type V = ResponseBodyView;

    open spec fn view(&self) -> ResponseBodyView {
        match self {
            ResponseBody::Empty => ResponseBodyView::Empty,
            ResponseBody::Text(text) => ResponseBodyView::Text(text@),
            ResponseBody::Json(response) => ResponseBodyView::Json { error: response.error@ },
        }
    }
}

/// An answer: its status and its body.
#[derive(Debug, PartialEq, Eq)]
pub struct ApiResponse {
    pub status: StatusCode,
    pub body: ResponseBody,
}

/// The text that tells a caller which rule an event breaks.
pub open spec fn domain_message(error: DomainErrorView) -> Seq<char> {
    match error {
        DomainErrorView::EmptyField(field) => "Поле '"@ + field + "' не должно быть пустым"@,
        DomainErrorView::InvalidTimestamp =>
            "Временная метка (timestamp) должна быть больше 0"@,
        DomainErrorView::TooLongField { name, max_len } => "Поле '"@ + name + "' '"@ + decimal(
            max_len as nat,
        ) + "' не должно быть пустым"@,
    }
}

fn domain_text(error: &DomainError) -> (text: String)
    ensures
        text@ == domain_message(error@),
{
    match error {
        DomainError::EmptyField(field) => "Поле '".to_owned().concat(field.as_str()).concat(
            "' не должно быть пустым",
        ),
        DomainError::InvalidTimestamp =>
            "Временная метка (timestamp) должна быть больше 0".to_owned(),
        DomainError::TooLongField { name, max_len } => "Поле '".to_owned().concat(
            name.as_str(),
        ).concat("' '").concat(decimal_text(*max_len as u64).as_str()).concat(
            "' не должно быть пустым",
        ),
    }
}

impl ApiError {
    /// The status and the body that the caller is answered.
    pub open spec fn answer(self) -> (StatusCode, ResponseBodyView) {
        match self {
            ApiError::Domain(error) => (
                StatusCode::BadRequest,
                ResponseBodyView::Json { error: domain_message(error@) },
            ),
            ApiError::PipelineUnavailable => (
                StatusCode::ServiceUnavailable,
                ResponseBodyView::Text("pipeline unavailable"@),
            ),
            ApiError::NotFound => (StatusCode::NotFound, ResponseBodyView::Empty),
            ApiError::Internal => (StatusCode::InternalServerError, ResponseBodyView::Empty),
            ApiError::Conflict => (StatusCode::Conflict, ResponseBodyView::Empty),
        }
    }

    /// Answers the caller.
    pub fn into_response(self) -> (response: ApiResponse)
        ensures
            (response.status, response.body@) == self.answer(),
    {
        match self {
            ApiError::Domain(error) => ApiResponse {
                status: StatusCode::BadRequest,
                body: ResponseBody::Json(ApiErrorResponse { error: domain_text(&error) }),
            },
            ApiError::PipelineUnavailable => ApiResponse {
                status: StatusCode::ServiceUnavailable,
                body: ResponseBody::Text("pipeline unavailable".to_owned()),
            },
            ApiError::NotFound => ApiResponse {
                status: StatusCode::NotFound,
                body: ResponseBody::Empty,
            },
            ApiError::Internal => ApiResponse {
                status: StatusCode::InternalServerError,
                body: ResponseBody::Empty,
            },
            ApiError::Conflict => ApiResponse {
                status: StatusCode::Conflict,
                body: ResponseBody::Empty,
            },
        }
    }
}

/// Takes a request to create an event: gives the event that is to be sent to the pipeline, or the
/// error that the caller is answered, and the counter that goes up.
pub fn create_event_start(request: CreateEventRequest) -> (step: (Result<Event, ApiError>, Counter))
    ensures
        match step.0 {
            Ok(event) => {
                &&& request.answered_by(Ok(event))
                &&& step.1 == Counter::EventsReceived
            },
            Err(error) => {
                &&& error matches ApiError::Domain(fault) && request.answered_by(Err(fault))
                &&& step.1 == Counter::EventsRejected
            },
        },
{
    match Event::try_from(request) {
        Ok(event) => (Ok(event), Counter::EventsReceived),
        Err(error) => (Err(ApiError::Domain(error)), Counter::EventsRejected),
    }
}

/// How a request to create an event ends, given what its sender was told: the status, or the
/// error, and the counter that goes up.
pub open spec fn create_end(sent: Result<EventOutcome, EventSendError>) -> (
    Result<StatusCode, ApiError>,
    Option<Counter>,
) {
    match sent {
        Ok(EventOutcome::Inserted) => (Ok(StatusCode::Created), Some(Counter::EventsPersisted)),
        Ok(EventOutcome::Duplicate) => (Ok(StatusCode::Success), None),
        Ok(EventOutcome::Conflict) => (Err(ApiError::Conflict), Some(Counter::EventsRejected)),
        Err(EventSendError::QueueClosed) | Err(EventSendError::WorkerDropped) => (
            Err(ApiError::PipelineUnavailable),
            Some(Counter::EventsRejected),
        ),
        Err(EventSendError::Storage(_)) => (
            Err(ApiError::Internal),
            Some(Counter::EventsRejected),
        ),
    }
}

/// Ends a request to create an event.
pub fn create_event_end(sent: Result<EventOutcome, EventSendError>) -> (end: (
    Result<StatusCode, ApiError>,
    Option<Counter>,
))
    ensures
        end == create_end(sent),
{
    match sent {
        Ok(EventOutcome::Inserted) => (Ok(StatusCode::Created), Some(Counter::EventsPersisted)),
        Ok(EventOutcome::Duplicate) => (Ok(StatusCode::Success), None),
        Ok(EventOutcome::Conflict) => (Err(ApiError::Conflict), Some(Counter::EventsRejected)),
        Err(EventSendError::QueueClosed) | Err(EventSendError::WorkerDropped) => (
            Err(ApiError::PipelineUnavailable),
            Some(Counter::EventsRejected),
        ),
        Err(EventSendError::Storage(_)) => (
            Err(ApiError::Internal),
            Some(Counter::EventsRejected),
        ),
    }
}

/// How a request for an event ends, given what the storage found.
pub open spec fn get_end(found: Result<Option<Event>, StorageError>) -> Result<Event, ApiError> {
    match found {
        Ok(Some(event)) => Ok(event),
        Ok(None) => Err(ApiError::NotFound),
        Err(_) => Err(ApiError::Internal),
    }
}

/// Answers a request for an event, given what the storage found.
pub fn get_event(found: Result<Option<Event>, StorageError>) -> (result: Result<Event, ApiError>)
    ensures
        result == get_end(found),
{
    match found {
        Ok(Some(event)) => Ok(event),
        Ok(None) => Err(ApiError::NotFound),
        Err(_) => Err(ApiError::Internal),
    }
}

/// The answer to a liveness request.
pub fn health() -> (answer: &'static str)
    ensures
        answer@ == "ok"@,
{
    "ok"
}

/// What a readiness request does next.
#[derive(Debug, Clone, Copy, PartialEq, Eq, Structural)]
pub enum ReadyStep {
    /// Ask the storage whether it is well.
    CheckStorage,
    /// Answer that the service is not ready because it shuts down.
    ShutDown,
    /// Answer that the service is not ready because the pipeline is closed.
    ProducerClosed,
}

/// What a readiness request comes to before the storage is asked.
pub open spec fn ready_step(shutdown_cancelled: bool, producer_closed: bool) -> ReadyStep {
    if shutdown_cancelled {
        ReadyStep::ShutDown
    } else if producer_closed {
        ReadyStep::ProducerClosed
    } else {
        ReadyStep::CheckStorage
    }
}

/// Begins a readiness request. The storage is only asked while the service runs and its pipeline
/// is open.
pub fn ready_start(shutdown_cancelled: bool, producer_closed: bool) -> (step: ReadyStep)
    ensures
        step == ready_step(shutdown_cancelled, producer_closed),
{
    if shutdown_cancelled {
        return ReadyStep::ShutDown;
    }
    if producer_closed {
        return ReadyStep::ProducerClosed;
    }
    ReadyStep::CheckStorage
}

/// The answer to a readiness request that came to `step`.
pub open spec fn ready_status(step: ReadyStep, storage_well: bool) -> StatusCode {
    if step == ReadyStep::CheckStorage && storage_well {
        StatusCode::Success
    } else {
        StatusCode::ServiceUnavailable
    }
}

/// Answers a readiness request, given the step it came to and, where the storage was asked,
/// whether it is well.
pub fn ready_end(step: ReadyStep, storage_well: bool) -> (status: StatusCode)
    ensures
        status == ready_status(step, storage_well),
{
    match step {
        ReadyStep::CheckStorage => if storage_well {
            StatusCode::Success
        } else {
            StatusCode::ServiceUnavailable
        },
        _ => StatusCode::ServiceUnavailable,
    }
}

} // verus!
