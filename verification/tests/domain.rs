use rust_event_stream::domain::{check_fields, DomainError, Event};
use rust_event_stream::http::CreateEventRequest;
use serde_json::Value;

fn json(text: &str) -> Value {
    serde_json::from_str(text).unwrap()
}

fn empty(name: &str) -> Option<DomainError> {
    Some(DomainError::EmptyField(name.to_string()))
}

fn too_long(name: &str, max_len: usize) -> Option<DomainError> {
    Some(DomainError::TooLongField { name: name.to_string(), max_len })
}

#[test]
fn empty_event_type_is_rejected() {
    let result = Event::new(
        "valid_id".to_string(),
        "valid_tenant".to_string(),
        "".to_string(),
        1625097600,
        json(r#"{"data": "test"}"#),
    );
    assert_eq!(result.err(), Some(DomainError::EmptyField("event_type".to_string())));
}

#[test]
fn event_id_too_long_is_rejected() {
    let long_id = "a".repeat(129);
    let result = Event::new(
        long_id,
        "valid_tenant".to_string(),
        "valid_type".to_string(),
        1625097600,
        json(r#"{"data": "test"}"#),
    );
    assert_eq!(
        result.err(),
        Some(DomainError::TooLongField { name: "event_id".to_string(), max_len: 128 })
    );
}

#[test]
fn tenant_id_too_long_is_rejected() {
    let long_tenant = "b".repeat(65);
    let result = Event::new(
        "valid_id".to_string(),
        long_tenant,
        "valid_type".to_string(),
        1625097600,
        json(r#"{"data": "test"}"#),
    );
    assert_eq!(
        result.err(),
        Some(DomainError::TooLongField { name: "tenant_id".to_string(), max_len: 64 })
    );
}

#[test]
fn event_type_too_long_is_rejected() {
    let long_type = "c".repeat(65);
    let result = Event::new(
        "valid_id".to_string(),
        "valid_tenant".to_string(),
        long_type,
        1625097600,
        json(r#"{"data": "test"}"#),
    );
    assert_eq!(
        result.err(),
        Some(DomainError::TooLongField { name: "event_type".to_string(), max_len: 64 })
    );
}

#[test]
fn payload_too_large_is_rejected() {
    let large_string = "x".repeat(256 * 1024);
    let mut object = serde_json::Map::new();
    object.insert("key".to_string(), Value::String(large_string));
    let result = Event::new(
        "valid_id".to_string(),
        "valid_tenant".to_string(),
        "valid_type".to_string(),
        1625097600,
        Value::Object(object),
    );
    assert_eq!(
        result.err(),
        Some(DomainError::TooLongField { name: "payload".to_string(), max_len: 256 * 1024 })
    );
}

#[test]
fn max_length_values_are_accepted() {
    let large_string = "x".repeat(256 * 1024 - 2);
    let result = Event::new(
        "a".repeat(128),
        "t".repeat(64),
        "e".repeat(64),
        1710000000,
        Value::String(large_string),
    );
    assert!(result.is_ok());
}

#[test]
fn payload_is_measured_by_its_compact_text() {
    let with_payload = |payload: Value| {
        Event::new("id".to_string(), "tenant".to_string(), "type".to_string(), 1, payload).err()
    };
    assert_eq!(with_payload(Value::String("x".repeat(262142))), None);
    assert_eq!(with_payload(Value::String("x".repeat(262143))), too_long("payload", 262144));
    // A quote is written as two characters, and a letter outside ASCII takes two bytes.
    assert_eq!(with_payload(Value::String("\"".repeat(131071))), None);
    assert_eq!(with_payload(Value::String("\"".repeat(131072))), too_long("payload", 262144));
    assert_eq!(with_payload(Value::String("ж".repeat(131071))), None);
    assert_eq!(with_payload(Value::String("ж".repeat(131072))), too_long("payload", 262144));
}

#[test]
fn blank_fields_are_rejected_in_order() {
    assert_eq!(check_fields(" \t\u{2003}", "", "", 0, 9999999).err(), empty("event_id"));
    assert_eq!(check_fields("i", "\n", "", 0, 9999999).err(), empty("tenant_id"));
    assert_eq!(check_fields("i", "t", "\u{3000}", 0, 9999999).err(), empty("event_type"));
    assert_eq!(
        check_fields("i", "t", "e", 0, 9999999).err(),
        Some(DomainError::InvalidTimestamp)
    );
    assert_eq!(check_fields("i", "t", "e", 1, 262145).err(), too_long("payload", 262144));
    assert_eq!(check_fields("i", "t", "e", 1, 262144), Ok(()));
}

#[test]
fn lengths_are_counted_in_bytes() {
    let wide = "ж".repeat(32);
    assert_eq!(check_fields("i", &wide, "e", 1, 0), Ok(()));
    let wider = "ж".repeat(33);
    assert_eq!(check_fields("i", &wider, "e", 1, 0).err(), too_long("tenant_id", 64));
    // A text of white space alone is blank, however long it is.
    let blank = " ".repeat(1000);
    assert_eq!(check_fields(&blank, "t", "e", 1, 0).err(), empty("event_id"));
}

#[test]
fn accepted_event_keeps_its_fields() {
    let payload = json(r#"{"b": [1, 2.5, null], "a": "x"}"#);
    let event = Event::new(
        "id".to_string(),
        "tenant".to_string(),
        "type".to_string(),
        7,
        payload.clone(),
    )
    .unwrap();
    assert_eq!(event.event_id, "id");
    assert_eq!(event.tenant_id, "tenant");
    assert_eq!(event.event_type, "type");
    assert_eq!(event.event_timestamp, 7);
    assert_eq!(event.payload, payload);
    assert_eq!(event.clone(), event);
}

#[test]
fn request_becomes_an_event_or_its_first_fault() {
    let request = |event_id: &str, timestamp: u64| CreateEventRequest {
        event_id: event_id.to_string(),
        tenant_id: "2".to_string(),
        event_type: "click".to_string(),
        timestamp,
        payload: json("\"test\""),
    };
    let event = Event::try_from(request("1", 1700000000)).unwrap();
    assert_eq!(event.event_id, "1");
    assert_eq!(event.event_timestamp, 1700000000);
    assert_eq!(event.payload, Value::String("test".to_string()));
    assert_eq!(Event::try_from(request("", 0)).err(), empty("event_id"));
    assert_eq!(Event::try_from(request("1", 0)).err(), Some(DomainError::InvalidTimestamp));
}
