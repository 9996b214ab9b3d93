//! What the answers of the service tell a caller.

use crate::domain::{
    lemma_blank_or_more, may_be_field, tells_first_fault, DomainError, Event, EventView,
};
use crate::headers::{header_values, lemma_header_text};
use crate::http::{
    check_api_key, create_end, create_event_end, create_event_start, get_end, get_event,
    handle_middleware_errors, health, middleware_answer, ready_end, ready_start, ready_status,
    ready_step, require_api_key, ApiError, ApiResponse, AuthConfig, CreateEventRequest, Endpoint,
    Method, MiddlewareError, ReadyStep, ResponseBody, ResponseBodyView, Route, StatusCode,
};
use crate::json::json_text;
use crate::metrics::Counter;
use crate::pipeline::EventSendError;
use crate::storage::{
    is_first, keyed, law_conflict_means_other_content, law_one_record_per_id,
    law_read_after_write, law_record_after_batch, law_records_stay_keyed, outcomes, same_content,
    store_all, EventOutcome, StorageError, Table,
};
use crate::text::{lemma_decimal_reads_back, number_read};
use axum::http::{HeaderMap, HeaderValue};
use std::sync::Arc;
use vstd::prelude::*;
use vstd::utf8::encode_utf8;

verus! {

/// The status that a request to create an event ends with, given what its sender was told.
pub open spec fn create_status(sent: Result<EventOutcome, EventSendError>) -> StatusCode {
    match create_end(sent).0 {
        Ok(status) => status,
        Err(error) => error.answer().0,
    }
}

/// Success is only reported of an event that is stored. A closed or broken pipeline, a conflict
/// and a storage error never are.
pub proof fn law_success_means_stored(sent: Result<EventOutcome, EventSendError>)
    ensures
        create_status(sent).number() < 300 <==> (sent matches Ok(outcome) && outcome
            != EventOutcome::Conflict),
        create_end(sent).0 is Ok <==> create_status(sent).number() < 300,
{
}

/// Each way in which sending an event can end has a status of its own.
pub proof fn law_status_of_each_end(sent: Result<EventOutcome, EventSendError>)
    ensures
        create_status(sent) == (match sent {
            Ok(EventOutcome::Inserted) => StatusCode::Created,
            Ok(EventOutcome::Duplicate) => StatusCode::Success,
            Ok(EventOutcome::Conflict) => StatusCode::Conflict,
            Err(EventSendError::QueueClosed) => StatusCode::ServiceUnavailable,
            Err(EventSendError::WorkerDropped) => StatusCode::ServiceUnavailable,
            Err(EventSendError::Storage(_)) => StatusCode::InternalServerError,
        }),
{
}

/// A rejection is counted exactly when an error is answered, and an event is counted as persisted
/// exactly when `201 Created` is answered.
pub proof fn law_counters_follow_the_answer(sent: Result<EventOutcome, EventSendError>)
    ensures
        create_end(sent).1 == Some(Counter::EventsRejected) <==> create_end(sent).0 is Err,
        create_end(sent).1 == Some(Counter::EventsPersisted) <==> create_status(sent)
            == StatusCode::Created,
{
}

/// What the status of a request to create an event says of the records: `201` that the event is
/// now stored and its id was not before, `200` that the id was stored, or came earlier in the
/// batch, with the same content, and `409` that the id is stored with other content.
pub proof fn law_status_tells_what_is_stored(table: Table, events: Seq<EventView>, i: int)
    requires
        0 <= i < events.len(),
    ensures
        ({
            let event = events[i];
            let stored = store_all(table, events);
            let status = create_status(Ok(outcomes(table, events)[i]));
            &&& stored.contains_key(event.event_id)
            &&& status == StatusCode::Created || status == StatusCode::Success || status
                == StatusCode::Conflict
            &&& status == StatusCode::Created ==> !table.contains_key(event.event_id)
                && stored[event.event_id] == event
            &&& status == StatusCode::Success ==> table.contains_key(event.event_id) || !is_first(
                events,
                i,
            )
            &&& status != StatusCode::Conflict <==> same_content(stored[event.event_id], event)
        }),
{
    law_conflict_means_other_content(table, events, i);
    law_one_record_per_id(table, events, i);
    if outcomes(table, events)[i] != EventOutcome::Conflict {
        law_read_after_write(table, events, i);
    }
}

/// An event that was reported as stored can be read, whatever is stored later: as long as the
/// storage answers from its records, a request for it gives an event with the same id and content.
pub proof fn law_stored_event_can_be_read(
    table: Table,
    events: Seq<EventView>,
    i: int,
    later: Seq<EventView>,
    found: Option<Event>,
)
    requires
        keyed(table),
        0 <= i < events.len(),
        create_status(Ok(outcomes(table, events)[i])).number() < 300,
        ({
            let stored = store_all(store_all(table, events), later);
            match found {
                Some(event) => stored.contains_key(events[i].event_id) && event@
                    == stored[events[i].event_id],
                None => !stored.contains_key(events[i].event_id),
            }
        }),
    ensures
        get_end(Ok(found)) matches Ok(event) && event@.event_id == events[i].event_id
            && same_content(event@, events[i]),
{
    law_read_after_write(table, events, i);
    law_records_stay_keyed(table, events);
    law_record_after_batch(store_all(table, events), later, events[i].event_id);
}

/// Errors of the storage stay inside: what a caller is answered does not depend on them, and it is
/// an empty `500`.
pub proof fn law_storage_errors_are_not_exposed(
    a: Arc<StorageError>,
    b: Arc<StorageError>,
    read: StorageError,
)
    ensures
        create_end(Err(EventSendError::Storage(a))) == create_end(Err(EventSendError::Storage(b))),
        create_end(Err(EventSendError::Storage(a))).0 == Err::<StatusCode, ApiError>(
            ApiError::Internal,
        ),
        get_end(Err(read)) == Err::<Event, ApiError>(ApiError::Internal),
        ApiError::Internal.answer() == (StatusCode::InternalServerError, ResponseBodyView::Empty),
{
}

/// The service is ready exactly while it is not shutting down, its pipeline is open and its
/// storage is well; otherwise it answers `503`.
pub proof fn law_ready_means_all_is_well(
    shutdown_cancelled: bool,
    producer_closed: bool,
    storage_well: bool,
)
    ensures
        ({
            let status = ready_status(
                ready_step(shutdown_cancelled, producer_closed),
                storage_well,
            );
            &&& status.number() == 200 <==> !shutdown_cancelled && !producer_closed && storage_well
            &&& status.number() == 200 || status.number() == 503
        }),
{
}

/// An overloaded service refuses with `503`, a request that takes too long ends with `408`, and
/// any other failure around the handlers with `500`.
pub proof fn law_overload_answers(error: MiddlewareError)
    ensures
        middleware_answer(error).0.number() == 503 <==> error is Overloaded,
        middleware_answer(error).0.number() == 408 <==> error is Elapsed,
        middleware_answer(error).0.number() == 500 <==> error is Other,
{
}

/// A key is right exactly if its bytes are visible ASCII, spaces and tabs, and are, byte for byte,
/// those of the configured key. Whatever is not right is refused with `401`.
pub proof fn law_key_is_compared_byte_for_byte(
    auth_config: &AuthConfig,
    value: Option<&[u8]>,
    result: Result<(), StatusCode>,
)
    requires
        call_ensures(check_api_key, (auth_config, value), result),
    ensures
        result is Ok <==> (value matches Some(bytes) && bytes@ == encode_utf8(auth_config.api_key@)
            && forall|i: int|
            0 <= i < bytes@.len() ==> 32 <= #[trigger] bytes@[i] <= 126 || bytes@[i] == 9),
        result matches Err(status) ==> status == StatusCode::Unauthorized,
{
    if value is Some {
        lemma_header_text(value->0@, auth_config.api_key@);
    }
}

/// A request passes exactly if its first `X-API-Key` header is visible ASCII and is, byte for byte,
/// the configured key. Any other is refused with `401`.
pub proof fn law_request_passes_with_the_key_only(
    auth_config: &AuthConfig,
    headers: &HeaderMap<HeaderValue>,
    result: Result<(), StatusCode>,
)
    requires
        call_ensures(require_api_key, (auth_config, headers), result),
    ensures
        result is Ok <==> {
            let key = header_values(*headers)["x-api-key"@][0];
            &&& header_values(*headers).contains_key("x-api-key"@)
            &&& key == encode_utf8(auth_config.api_key@)
            &&& forall|i: int| 0 <= i < key.len() ==> 32 <= #[trigger] key[i] <= 126 || key[i] == 9
        },
        result matches Err(status) ==> status == StatusCode::Unauthorized,
{
    lemma_header_text(header_values(*headers)["x-api-key"@][0], auth_config.api_key@);
}

/// The configured key opens the service and no other does: with two different keys configured, a
/// request that passes under one is refused under the other.
pub proof fn law_one_key_opens(
    a: &AuthConfig,
    b: &AuthConfig,
    headers: &HeaderMap<HeaderValue>,
    results: (Result<(), StatusCode>, Result<(), StatusCode>),
)
    requires
        a.api_key@ != b.api_key@,
        call_ensures(require_api_key, (a, headers), results.0),
        call_ensures(require_api_key, (b, headers), results.1),
    ensures
        results.0 is Ok ==> results.1 == Err::<(), StatusCode>(StatusCode::Unauthorized),
{
}

/// Every status has the number that HTTP gives it.
pub proof fn law_status_has_its_number(status: StatusCode, number: u16)
    requires
        call_ensures(StatusCode::as_u16, (status,), number),
    ensures
        status == StatusCode::Success <==> number == 200,
        status == StatusCode::Created <==> number == 201,
        status == StatusCode::BadRequest <==> number == 400,
        status == StatusCode::Unauthorized <==> number == 401,
        status == StatusCode::NotFound <==> number == 404,
        status == StatusCode::RequestTimeout <==> number == 408,
        status == StatusCode::Conflict <==> number == 409,
        status == StatusCode::InternalServerError <==> number == 500,
        status == StatusCode::ServiceUnavailable <==> number == 503,
        number == status.number(),
{
}

/// Each endpoint has its method and path, and exactly the two that handle events ask for the key.
pub proof fn law_endpoint_has_its_route(endpoint: Endpoint, route: Route)
    requires
        call_ensures(Endpoint::route, (endpoint,), route),
    ensures
        route.method == Method::Post <==> endpoint == Endpoint::CreateEvent,
        route.protected <==> endpoint == Endpoint::CreateEvent || endpoint == Endpoint::GetEvent,
        endpoint == Endpoint::CreateEvent ==> route.path@ == "/v1/events"@,
        endpoint == Endpoint::GetEvent ==> route.path@ == "/v1/events/{id}"@,
        endpoint == Endpoint::Metrics ==> route.path@ == "/metrics"@,
        endpoint == Endpoint::Health ==> route.path@ == "/health"@,
        endpoint == Endpoint::Ready ==> route.path@ == "/ready"@,
{
}

/// A failure around the handlers is answered with its status and text.
pub proof fn law_layer_failure_is_answered(
    error: MiddlewareError,
    answer: (StatusCode, String),
)
    requires
        call_ensures(handle_middleware_errors, (error,), answer),
    ensures
        error is Elapsed ==> answer.0 == StatusCode::RequestTimeout && answer.1@
            == "Request timed out."@,
        error is Overloaded ==> answer.0 == StatusCode::ServiceUnavailable && answer.1@
            == "Server is overloaded. Please try again later."@,
        error is Other ==> answer.0 == StatusCode::InternalServerError && answer.1@
            == "Internal server error"@,
{
}

/// A request to create an event gives the event that it asks for, field by field, exactly if its
/// fields pass; otherwise it gives their first fault.
pub proof fn law_request_gives_the_event_it_asks_for(
    request: CreateEventRequest,
    result: Result<Event, DomainError>,
)
    requires
        call_ensures(<Event as TryFrom<CreateEventRequest>>::try_from, (request,), result),
    ensures
        result is Ok <==> {
            &&& may_be_field(request.event_id@, 128)
            &&& may_be_field(request.tenant_id@, 64)
            &&& may_be_field(request.event_type@, 64)
            &&& request.timestamp > 0
            &&& encode_utf8(json_text(request.payload)).len() <= 262144
        },
        result matches Ok(event) ==> {
            &&& event.event_id@ == request.event_id@
            &&& event.tenant_id@ == request.tenant_id@
            &&& event.event_type@ == request.event_type@
            &&& event.event_timestamp == request.timestamp
            &&& event.payload == request.payload
        },
        result matches Err(error) ==> tells_first_fault(
            error,
            request.event_id@,
            request.tenant_id@,
            request.event_type@,
            request.timestamp,
            encode_utf8(json_text(request.payload)).len(),
        ),
{
    lemma_blank_or_more(request.event_id@);
    lemma_blank_or_more(request.tenant_id@);
    lemma_blank_or_more(request.event_type@);
}

/// A request to create an event is sent on, and counted as received, exactly if its fields pass; it
/// is then the event that was asked for. Otherwise it is answered with the first fault and counted
/// as rejected.
pub proof fn law_request_is_sent_on_or_rejected(
    request: CreateEventRequest,
    step: (Result<Event, ApiError>, Counter),
)
    requires
        call_ensures(create_event_start, (request,), step),
    ensures
        step.0 is Ok <==> {
            &&& may_be_field(request.event_id@, 128)
            &&& may_be_field(request.tenant_id@, 64)
            &&& may_be_field(request.event_type@, 64)
            &&& request.timestamp > 0
            &&& encode_utf8(json_text(request.payload)).len() <= 262144
        },
        step.1 == (if step.0 is Ok {
            Counter::EventsReceived
        } else {
            Counter::EventsRejected
        }),
        step.0 matches Ok(event) ==> {
            &&& event.event_id@ == request.event_id@
            &&& event.tenant_id@ == request.tenant_id@
            &&& event.event_type@ == request.event_type@
            &&& event.event_timestamp == request.timestamp
            &&& event.payload == request.payload
        },
        step.0 matches Err(error) ==> (error matches ApiError::Domain(fault) && tells_first_fault(
            fault,
            request.event_id@,
            request.tenant_id@,
            request.event_type@,
            request.timestamp,
            encode_utf8(json_text(request.payload)).len(),
        )),
{
    lemma_blank_or_more(request.event_id@);
    lemma_blank_or_more(request.tenant_id@);
    lemma_blank_or_more(request.event_type@);
}

/// A request to create an event ends as its sender was told: `201` and a persisted event if it was
/// inserted, `200` if it is a duplicate, and an error and a rejection otherwise.
pub proof fn law_request_ends_as_its_sender_was_told(
    sent: Result<EventOutcome, EventSendError>,
    end: (Result<StatusCode, ApiError>, Option<Counter>),
)
    requires
        call_ensures(create_event_end, (sent,), end),
    ensures
        match sent {
            Ok(EventOutcome::Inserted) => {
                &&& end.0 == Ok::<StatusCode, ApiError>(StatusCode::Created)
                &&& end.1 == Some(Counter::EventsPersisted)
            },
            Ok(EventOutcome::Duplicate) => {
                &&& end.0 == Ok::<StatusCode, ApiError>(StatusCode::Success)
                &&& end.1 is None
            },
            Ok(EventOutcome::Conflict) => {
                &&& end.0 == Err::<StatusCode, ApiError>(ApiError::Conflict)
                &&& end.1 == Some(Counter::EventsRejected)
            },
            Err(EventSendError::Storage(_)) => {
                &&& end.0 == Err::<StatusCode, ApiError>(ApiError::Internal)
                &&& end.1 == Some(Counter::EventsRejected)
            },
            Err(_) => {
                &&& end.0 == Err::<StatusCode, ApiError>(ApiError::PipelineUnavailable)
                &&& end.1 == Some(Counter::EventsRejected)
            },
        },
{
}

/// A request for an event gives what the storage found: the event itself, `NotFound` exactly if
/// there is none, and `Internal` exactly if the storage failed.
pub proof fn law_request_gives_what_was_found(
    found: Result<Option<Event>, StorageError>,
    result: Result<Event, ApiError>,
)
    requires
        call_ensures(get_event, (found,), result),
    ensures
        found matches Ok(Some(event)) ==> result == Ok::<Event, ApiError>(event),
        result matches Ok(event) ==> found == Ok::<Option<Event>, StorageError>(Some(event)),
        found matches Ok(None) <==> result == Err::<Event, ApiError>(ApiError::NotFound),
        found is Err <==> result == Err::<Event, ApiError>(ApiError::Internal),
{
}

/// Each error is answered with its status and body: a fault of the event with `400` and a text that
/// names the field, and for a field that is too long the limit, and the others with `503`, `404`,
/// `500` and `409`.
pub proof fn law_error_is_answered_with_status_and_body(error: ApiError, response: ApiResponse)
    requires
        call_ensures(ApiError::into_response, (error,), response),
    ensures
        match error {
            ApiError::Domain(fault) => {
                &&& response.status == StatusCode::BadRequest
                &&& response.body matches ResponseBody::Json(body) && match fault {
                    DomainError::EmptyField(field) => body.error@ == "Поле '"@ + field@
                        + "' не должно быть пустым"@,
                    DomainError::InvalidTimestamp => body.error@
                        == "Временная метка (timestamp) должна быть больше 0"@,
                    DomainError::TooLongField { name, max_len } => exists|limit: Seq<char>|
                        {
                            &&& #[trigger] number_read(limit) == max_len
                            &&& forall|i: int|
                                0 <= i < limit.len() ==> '0' <= #[trigger] limit[i] <= '9'
                            &&& limit.len() > 0
                            &&& limit[0] == '0' ==> max_len == 0
                            &&& body.error@ == "Поле '"@ + name@ + "' '"@ + limit
                                + "' не должно быть пустым"@
                        },
                }
            },
            ApiError::PipelineUnavailable => {
                &&& response.status == StatusCode::ServiceUnavailable
                &&& response.body matches ResponseBody::Text(text) && text@
                    == "pipeline unavailable"@
            },
            ApiError::NotFound => response.status == StatusCode::NotFound && response.body is Empty,
            ApiError::Internal => response.status == StatusCode::InternalServerError
                && response.body is Empty,
            ApiError::Conflict => response.status == StatusCode::Conflict && response.body is Empty,
        },
{
    if let ApiError::Domain(DomainError::TooLongField { name, max_len }) = error {
        lemma_decimal_reads_back(max_len as nat);
    }
}

/// A readiness request asks the storage exactly while the service runs with an open pipeline, and is
/// then answered `200` exactly if the storage is well. In every other case it is answered `503`.
pub proof fn law_ready_request_is_answered(
    shutdown_cancelled: bool,
    producer_closed: bool,
    step: ReadyStep,
    storage_well: bool,
    status: StatusCode,
)
    requires
        call_ensures(ready_start, (shutdown_cancelled, producer_closed), step),
        call_ensures(ready_end, (step, storage_well), status),
    ensures
        step == ReadyStep::CheckStorage <==> !shutdown_cancelled && !producer_closed,
        step == ReadyStep::ShutDown <==> shutdown_cancelled,
        status == StatusCode::Success <==> !shutdown_cancelled && !producer_closed && storage_well,
        status != StatusCode::Success ==> status == StatusCode::ServiceUnavailable,
{
}

/// A service that runs says so.
pub proof fn law_alive_service_says_ok(answer: &'static str)
    requires
        call_ensures(health, (), answer),
    ensures
        answer@ == "ok"@,
{
}

} // verus!
