use axum::http::{HeaderMap, HeaderValue};
use rust_event_stream::domain::{DomainError, Event};
use rust_event_stream::http::{
    check_api_key, create_event_end, create_event_start, get_event, handle_middleware_errors,
    health, ready_end, ready_start, require_api_key, ApiError, ApiErrorResponse, AuthConfig,
    CreateEventRequest, Endpoint, Method, MiddlewareError, ReadyStep, ResponseBody, StatusCode,
    BODY_LIMIT, CONCURRENCY_LIMIT, REQUEST_TIMEOUT_SECS,
};
use rust_event_stream::memory::TestStorage;
use rust_event_stream::metrics::{batch_counter, duration_histogram, response_count, Counter};
use rust_event_stream::pipeline::{
    batch_replies, send_event, Delivery, PersistRequest, Reply, Worker, FLUSH_INTERVAL_NANOS,
};
use rust_event_stream::storage::StorageError;
use rust_event_stream::trace::RequestTrace;
use serde_json::Value;
use std::collections::HashMap;

fn test_auth_config() -> AuthConfig {
    AuthConfig { api_key: "test-api-key".to_string() }
}

fn failure() -> StorageError {
    StorageError::Unavailable("forced test failure".to_string())
}

/// The service without its network: one request at a time goes through every rule.
struct Service {
    auth: AuthConfig,
    storage: TestStorage,
    storage_fails: bool,
    pipeline: Option<Worker<()>>,
    worker_panics: bool,
    shutdown_cancelled: bool,
    counters: HashMap<&'static str, u64>,
}

impl Service {
    fn new() -> Self {
        Service {
            auth: test_auth_config(),
            storage: TestStorage::default(),
            storage_fails: false,
            pipeline: Some(Worker::new(3, FLUSH_INTERVAL_NANOS)),
            worker_panics: false,
            shutdown_cancelled: false,
            counters: HashMap::new(),
        }
    }

    fn count(&mut self, counter: Option<Counter>) {
        if let Some(counter) = counter {
            *self.counters.entry(counter.name()).or_insert(0) += 1;
        }
    }

    fn counter(&self, name: &str) -> u64 {
        *self.counters.get(name).unwrap_or(&0)
    }

    fn authorize(&self, key: Option<&str>) -> Result<(), StatusCode> {
        let mut headers = HeaderMap::new();
        headers.insert("content-type", HeaderValue::from_static("application/json"));
        if let Some(key) = key {
            headers.insert("X-API-Key", key.parse().unwrap());
        }
        require_api_key(&self.auth, &headers)
    }

    fn deliver(&mut self, event: Event) -> Delivery {
        let worker = match self.pipeline.as_mut() {
            Some(worker) => worker,
            None => return Delivery::Refused,
        };
        let batch = match worker.receive(PersistRequest { event, reply_to: () }, 0) {
            Some(batch) => batch,
            None => worker.deadline_reached().unwrap(),
        };
        if self.worker_panics {
            self.pipeline = None;
            return Delivery::Dropped;
        }
        let result =
            if self.storage_fails { Err(failure()) } else { self.storage.persist(&batch.events) };
        self.count(batch_counter(&result));
        let mut replies = batch_replies(batch.reply_tos, result);
        Delivery::Answered(replies.remove(0).1)
    }

    fn post_with(&mut self, key: Option<&str>, body: &str) -> u16 {
        if let Err(status) = self.authorize(key) {
            return status.as_u16();
        }
        let body: Value = serde_json::from_str(body).unwrap();
        let text = |name: &str| body[name].as_str().unwrap().to_string();
        let request = CreateEventRequest {
            event_id: text("event_id"),
            tenant_id: text("tenant_id"),
            event_type: text("event_type"),
            timestamp: body["timestamp"].as_u64().unwrap(),
            payload: body["payload"].clone(),
        };
        let (event, counter) = create_event_start(request);
        self.count(Some(counter));
        let event = match event {
            Ok(event) => event,
            Err(error) => return error.into_response().status.as_u16(),
        };
        let sent = send_event(self.deliver(event));
        let (end, counter) = create_event_end(sent);
        self.count(counter);
        match end {
            Ok(status) => status.as_u16(),
            Err(error) => error.into_response().status.as_u16(),
        }
    }

    fn post(&mut self, body: &str) -> u16 {
        self.post_with(Some("test-api-key"), body)
    }

    fn get(&self, event_id: &str) -> u16 {
        if let Err(status) = self.authorize(Some("test-api-key")) {
            return status.as_u16();
        }
        let found =
            if self.storage_fails { Err(failure()) } else { self.storage.get_by_id(event_id) };
        match get_event(found) {
            Ok(_) => 200,
            Err(error) => error.into_response().status.as_u16(),
        }
    }

    fn ready(&self) -> u16 {
        let step = ready_start(self.shutdown_cancelled, self.pipeline.is_none());
        ready_end(step, !self.storage_fails).as_u16()
    }
}

const CLICK: &str = r#"{"event_id":"1","tenant_id":"2","event_type":"click","timestamp":1700000000,"payload":"test"}"#;

fn event(id: &str, payload: &str) -> Event {
    Event::new(
        id.to_string(),
        "2".to_string(),
        "click".to_string(),
        1700000000,
        serde_json::from_str(payload).unwrap(),
    )
    .unwrap()
}

#[test]
fn slow_request_times_out() {
    let (status, text) = handle_middleware_errors(MiddlewareError::Elapsed);
    assert_eq!(status.as_u16(), 408);
    assert_eq!(text, "Request timed out.");
    assert_eq!(REQUEST_TIMEOUT_SECS, 5);
}

#[test]
fn overloaded_service_refuses() {
    let (status, text) = handle_middleware_errors(MiddlewareError::Overloaded);
    assert_eq!(status.as_u16(), 503);
    assert_eq!(text, "Server is overloaded. Please try again later.");
    let (status, text) = handle_middleware_errors(MiddlewareError::Other);
    assert_eq!(status.as_u16(), 500);
    assert_eq!(text, "Internal server error");
    assert_eq!(CONCURRENCY_LIMIT, 100);
    assert_eq!(BODY_LIMIT, 1_048_576);
}

#[test]
fn health_returns_success() {
    assert_eq!(health(), "ok");
}

#[test]
fn ready_returns_success() {
    assert_eq!(Service::new().ready(), 200);
}

#[test]
fn readiness_is_503_when_storage_is_unavailable() {
    let mut service = Service::new();
    service.storage_fails = true;
    assert_eq!(service.ready(), 503);
    assert_eq!(health(), "ok");
}

#[test]
fn readiness_is_503_when_worker_is_panic() {
    let mut service = Service::new();
    service.worker_panics = true;
    assert_eq!(service.post(CLICK), 503);
    assert_eq!(service.ready(), 503);
    assert_eq!(health(), "ok");
    // Later events find the queue closed.
    assert_eq!(service.post(CLICK), 503);
}

#[test]
fn readiness_is_503_when_shutdown_token_cancelled() {
    let mut service = Service::new();
    assert_eq!(service.ready(), 200);
    service.shutdown_cancelled = true;
    assert_eq!(service.ready(), 503);
    assert_eq!(health(), "ok");
}

#[test]
fn valid_event_is_accepted() {
    let mut service = Service::new();
    let status = service.post(r#"{"event_id":"1","tenant_id":"2","event_type":"click","timestamp":1700000000,"payload":{"1":"1"}}"#);
    assert_eq!(status, 201);
    assert_eq!(service.storage.events().len(), 1);
    assert_eq!(service.storage.events()[0], event("1", r#"{"1":"1"}"#));
}

#[test]
fn closed_or_unavailable_pipeline_is_not_reported_as_success() {
    let mut service = Service::new();
    service.pipeline = None;
    assert_eq!(service.post(CLICK), 503);
}

#[test]
fn invalid_event_is_rejected() {
    let mut service = Service::new();
    let status = service.post(r#"{"event_id":"","tenant_id":"2","event_type":"click","timestamp":1700000000,"payload":"test"}"#);
    assert_eq!(status, 400);
    assert_eq!(service.storage.events().len(), 0);
}

#[test]
fn existing_event_returns_200() {
    let mut service = Service::new();
    service
        .storage
        .persist(&[Event::new(
            "evt-123".to_string(),
            "1".to_string(),
            "1".to_string(),
            12345,
            serde_json::from_str(r#"{"1":"1"}"#).unwrap(),
        )
        .unwrap()])
        .unwrap();
    assert_eq!(service.get("evt-123"), 200);
}

#[test]
fn unknown_event_returns_404() {
    let mut service = Service::new();
    service
        .storage
        .persist(&[Event::new(
            "evt-123".to_string(),
            "1".to_string(),
            "1".to_string(),
            12345,
            serde_json::from_str(r#"{"1":"1"}"#).unwrap(),
        )
        .unwrap()])
        .unwrap();
    assert_eq!(service.get("evt-345"), 404);
}

#[test]
fn storage_error_returns_500() {
    let mut service = Service::new();
    service.storage_fails = true;
    assert_eq!(service.get("evt-failed"), 500);
}

#[test]
fn equivalent_retry_returns_200() {
    let mut service = Service::new();
    let body = r#"{"event_id":"evt-123","tenant_id":"2","event_type":"click","timestamp":1700000000,"payload":{"1":"1"}}"#;
    assert_eq!(service.post(body), 201);
    assert_eq!(service.post(body), 200);
    assert_eq!(service.storage.events().len(), 1);
    assert_eq!(service.storage.events()[0], event("evt-123", r#"{"1":"1"}"#));
}

#[test]
fn http_conflict_test() {
    let mut service = Service::new();
    let first = r#"{"event_id":"evt-123","tenant_id":"2","event_type":"click","timestamp":1700000000,"payload":{"1":"user-a"}}"#;
    let second = r#"{"event_id":"evt-123","tenant_id":"2","event_type":"click","timestamp":1700000000,"payload":"user-2"}"#;
    assert_eq!(service.post(first), 201);
    assert_eq!(service.post(second), 409);
    assert_eq!(service.storage.events().len(), 1);
    assert_eq!(service.storage.events()[0], event("evt-123", r#"{"1":"user-a"}"#));
}

#[test]
fn client_cancelation() {
    let mut storage = TestStorage::default();
    let mut worker: Worker<std::sync::mpsc::Sender<Reply>> = Worker::new(3, FLUSH_INTERVAL_NANOS);
    let (request, _) = create_event_start(CreateEventRequest {
        event_id: "evt-12341".to_string(),
        tenant_id: "2".to_string(),
        event_type: "click".to_string(),
        timestamp: 1700000000,
        payload: serde_json::from_str(r#"{"1":"test"}"#).unwrap(),
    });
    let (reply_to, waiting) = std::sync::mpsc::channel();
    let none = worker.receive(PersistRequest { event: request.unwrap(), reply_to }, 0);
    assert!(none.is_none());

    // The client goes away while its event waits.
    drop(waiting);

    let batch = worker.deadline_reached().unwrap();
    let result = storage.persist(&batch.events);
    for (reply_to, reply) in batch_replies(batch.reply_tos, result) {
        assert!(reply_to.send(reply).is_err());
    }
    assert!(worker.cancel().finish().is_none());
    assert_eq!(storage.events().len(), 1);
    assert_eq!(storage.events()[0], event("evt-12341", r#"{"1":"test"}"#));
}

#[test]
fn shutdown_does_not_lose_accepted_batch() {
    let mut storage = TestStorage::default();
    let mut worker: Worker<u8> = Worker::new(3, FLUSH_INTERVAL_NANOS);
    let accepted = event("evt-12341", r#"{"1":"test"}"#);
    let none = worker.receive(PersistRequest { event: accepted.clone(), reply_to: 1 }, 0);
    assert!(none.is_none());
    let batch = worker.cancel().finish().unwrap();
    let mut replies = batch_replies(batch.reply_tos, storage.persist(&batch.events));
    let (end, _) = create_event_end(send_event(Delivery::Answered(replies.remove(0).1)));
    assert_eq!(end.unwrap().as_u16(), 201);
    assert_eq!(storage.events().len(), 1);
    assert_eq!(storage.events()[0], accepted);
}

#[test]
fn request_id_is_present() {
    let trace = RequestTrace::new(
        "POST".to_string(),
        Some("/v1/events".to_string()),
        "/v1/events".to_string(),
    );
    let mut headers = HeaderMap::new();
    headers.insert("content-type", HeaderValue::from_static("text/plain"));
    headers.append("set-cookie", HeaderValue::from_static("a=1"));
    headers.append("set-cookie", HeaderValue::from_static("b=2"));
    headers.append("x-request-id", HeaderValue::from_static("first"));
    headers.append("x-request-id", HeaderValue::from_static("second"));
    assert!(!trace.mark_response(&mut headers));

    let request_id_header = headers.get("x-request-id");
    assert!(request_id_header.is_some());
    let text = request_id_header.unwrap().to_str().unwrap();
    let id = uuid::Uuid::parse_str(text).unwrap();
    assert_eq!(id.get_version_num(), 4);
    assert_eq!(id.to_string(), trace.request_id);
    assert_eq!(text, trace.request_id);
    assert_eq!(headers.get_all("x-request-id").iter().count(), 1);
    assert_eq!(headers.get("content-type").unwrap(), "text/plain");
    let cookies: Vec<&HeaderValue> = headers.get_all("set-cookie").iter().collect();
    assert_eq!(cookies, vec!["a=1", "b=2"]);
    assert_eq!(headers.keys().count(), 3);

    let other = RequestTrace::new("GET".to_string(), None, "/nowhere".to_string());
    assert_ne!(other.request_id, trace.request_id);
    assert_eq!(other.method, "GET");
    assert_eq!(other.route, "/nowhere");
    assert_eq!(trace.route, "/v1/events");
}

#[test]
fn drawn_id_is_kept() {
    let trace = RequestTrace::with_id(
        "id".to_string(),
        "GET".to_string(),
        Some("/v1/events/{id}".to_string()),
        "/v1/events/7".to_string(),
    );
    assert_eq!(trace.request_id, "id");
    assert_eq!(trace.method, "GET");
    assert_eq!(trace.route, "/v1/events/{id}");
}

#[test]
fn crowded_headers_are_left_as_they_are() {
    let mut headers = HeaderMap::new();
    let mut count: usize = 0;
    loop {
        let name = axum::http::HeaderName::from_bytes(format!("h{}", count).as_bytes()).unwrap();
        if headers.try_insert(name, HeaderValue::from_static("v")).is_err() {
            break;
        }
        count += 1;
    }
    assert!(count * 5 >= 32768);
    let trace = RequestTrace::new("GET".to_string(), None, "/".to_string());
    assert!(trace.mark_response(&mut headers));
    assert!(headers.get("x-request-id").is_none());
    assert_eq!(headers.len(), count);
}

#[test]
fn unusable_request_id_is_left_out() {
    let trace = RequestTrace {
        request_id: "line\nbreak".to_string(),
        method: "GET".to_string(),
        route: "/".to_string(),
    };
    let mut headers = HeaderMap::new();
    assert!(!trace.mark_response(&mut headers));
    assert!(headers.is_empty());
}

#[test]
fn response_is_counted_once_under_its_status() {
    let count = response_count(StatusCode::Created.as_u16());
    assert_eq!(count.name, "http_requests_total");
    assert_eq!(count.label, "status");
    assert_eq!(count.value, "201");
    assert_eq!(count.amount, 1);
    assert_eq!(response_count(StatusCode::RequestTimeout.as_u16()).value, "408");
    assert_eq!(duration_histogram(), "http_request_duration_seconds");
}

#[test]
fn successful_request_updates_metrics() {
    let mut service = Service::new();
    let received_before = service.counter("events_received_total");
    let persisted_before = service.counter("events_persisted_total");
    let status = service.post(
        r#"{
        "event_id":"successful-metrics-test",
        "tenant_id":"2",
        "event_type":"click",
        "timestamp":1700000000,
        "payload":"test"
    }"#,
    );
    assert_eq!(status, 201);
    assert_eq!(service.counter("events_received_total"), received_before + 1);
    assert_eq!(service.counter("events_persisted_total"), persisted_before + 1);
    assert_eq!(service.counter("events_rejected_total"), 0);
}

#[test]
fn failed_request_updates_error_metrics() {
    let mut service = Service::new();
    service.storage_fails = true;
    let rejected_before = service.counter("events_rejected_total");
    let errors_before = service.counter("db_errors_total");
    let status = service.post(
        r#"{
        "event_id":"successful-metrics-test",
        "tenant_id":"2",
        "event_type":"click",
        "timestamp":1700000000,
        "payload":"test"
    }"#,
    );
    assert_eq!(status, 500);
    assert_eq!(service.counter("events_rejected_total"), rejected_before + 1);
    assert_eq!(service.counter("db_errors_total"), errors_before + 1);
}

#[test]
fn missing_auth_is_rejected() {
    let mut service = Service::new();
    assert_eq!(service.post_with(None, CLICK), 401);
    assert_eq!(service.storage.events().len(), 0);
}

#[test]
fn invalid_auth_is_rejected() {
    let mut service = Service::new();
    assert_eq!(service.post_with(Some("wrong-key"), CLICK), 401);
    assert_eq!(service.storage.events().len(), 0);
}

#[test]
fn valid_auth_reaches_handler() {
    let mut service = Service::new();
    let status = service.post_with(
        Some("test-api-key"),
        r#"{"event_id":"1","tenant_id":"2","event_type":"click","timestamp":1700000000,"payload":{"1":"1"}}"#,
    );
    assert_eq!(status, 201);
    assert_eq!(service.storage.events().len(), 1);
    assert_eq!(service.storage.events()[0], event("1", r#"{"1":"1"}"#));
}

#[test]
fn key_header_is_found_under_any_case() {
    let auth = test_auth_config();
    let mut headers = HeaderMap::new();
    assert_eq!(require_api_key(&auth, &headers), Err(StatusCode::Unauthorized));
    headers.insert("x-api-key", HeaderValue::from_static("test-api-key"));
    assert_eq!(require_api_key(&auth, &headers), Ok(()));
    // Of several values the first counts.
    headers.append("x-api-key", HeaderValue::from_static("wrong-key"));
    assert_eq!(require_api_key(&auth, &headers), Ok(()));
    headers.insert("x-api-key", HeaderValue::from_static("wrong-key"));
    headers.append("x-api-key", HeaderValue::from_static("test-api-key"));
    assert_eq!(require_api_key(&auth, &headers), Err(StatusCode::Unauthorized));
}

#[test]
fn key_must_be_visible_ascii() {
    let auth = AuthConfig { api_key: "ключ".to_string() };
    let mut headers = HeaderMap::new();
    headers.insert("X-API-Key", HeaderValue::from_bytes("ключ".as_bytes()).unwrap());
    assert_eq!(require_api_key(&auth, &headers), Err(StatusCode::Unauthorized));
    assert_eq!(check_api_key(&auth, None), Err(StatusCode::Unauthorized));
    assert_eq!(check_api_key(&test_auth_config(), Some(b"test-api-key")), Ok(()));
}

#[test]
fn event_endpoints_are_protected() {
    let route = Endpoint::CreateEvent.route();
    assert_eq!((route.method, route.path, route.protected), (Method::Post, "/v1/events", true));
    let route = Endpoint::GetEvent.route();
    assert_eq!(
        (route.method, route.path, route.protected),
        (Method::Get, "/v1/events/{id}", true)
    );
    for (endpoint, path) in [
        (Endpoint::Metrics, "/metrics"),
        (Endpoint::Health, "/health"),
        (Endpoint::Ready, "/ready"),
    ] {
        let route = endpoint.route();
        assert_eq!((route.method, route.path, route.protected), (Method::Get, path, false));
    }
}

#[test]
fn readiness_stops_at_the_first_obstacle() {
    assert_eq!(ready_start(true, true), ReadyStep::ShutDown);
    assert_eq!(ready_start(false, true), ReadyStep::ProducerClosed);
    assert_eq!(ready_start(false, false), ReadyStep::CheckStorage);
    assert_eq!(ready_end(ReadyStep::ShutDown, true), StatusCode::ServiceUnavailable);
}

#[test]
fn errors_are_answered_with_their_status_and_body() {
    let domain = |error: DomainError| ApiError::Domain(error).into_response();
    let body = |text: &str| ResponseBody::Json(ApiErrorResponse { error: text.to_string() });

    let response = domain(DomainError::EmptyField("event_id".to_string()));
    assert_eq!(response.status, StatusCode::BadRequest);
    assert_eq!(response.body, body("Поле 'event_id' не должно быть пустым"));

    let response = domain(DomainError::InvalidTimestamp);
    assert_eq!(response.status, StatusCode::BadRequest);
    assert_eq!(response.body, body("Временная метка (timestamp) должна быть больше 0"));

    let response = domain(DomainError::TooLongField { name: "payload".to_string(), max_len: 262144 });
    assert_eq!(response.status, StatusCode::BadRequest);
    assert_eq!(response.body, body("Поле 'payload' '262144' не должно быть пустым"));

    let response = ApiError::PipelineUnavailable.into_response();
    assert_eq!(response.status, StatusCode::ServiceUnavailable);
    assert_eq!(response.body, ResponseBody::Text("pipeline unavailable".to_string()));

    for (error, status) in
        [(ApiError::NotFound, 404), (ApiError::Internal, 500), (ApiError::Conflict, 409)]
    {
        let response = error.into_response();
        assert_eq!(response.status.as_u16(), status);
        assert_eq!(response.body, ResponseBody::Empty);
    }
}

#[test]
fn late_retry_is_answered_200_and_the_event_can_be_read() {
    let mut service = Service::new();
    let other = r#"{"event_id":"1","tenant_id":"3","event_type":"view","timestamp":5,"payload":null}"#;
    assert_eq!(service.post(CLICK), 201);
    assert_eq!(service.post(other), 409);
    assert_eq!(service.post(&other.replace(r#""event_id":"1""#, r#""event_id":"2""#)), 201);
    assert_eq!(service.post(CLICK), 200);
    assert_eq!(service.storage.events().len(), 2);
    let read = get_event(service.storage.get_by_id("1")).unwrap();
    assert_eq!(read, event("1", r#""test""#));
    assert_eq!(service.counter("events_rejected_total"), 1);
    assert_eq!(service.counter("events_persisted_total"), 2);
}
