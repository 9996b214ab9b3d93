//! Events and the rules that an event must meet to enter the service.

use crate::json::{json_key, json_text, json_view, value_clone, value_text, JsonView};
use crate::text::{
    blank, holds_more_than_space, is_blank, is_white_space, white_space_characters,
};
use serde_json::Value;
use vstd::prelude::*;
use vstd::utf8::encode_utf8;

verus! {

/// The longest `event_id`, in bytes.
pub const MAX_EVENT_ID_LEN: usize = 128;

/// The longest `tenant_id`, in bytes.
pub const MAX_TENANT_ID_LEN: usize = 64;

/// The longest `event_type`, in bytes.
pub const MAX_EVENT_TYPE_LEN: usize = 64;

/// The longest payload, in bytes of its compact JSON text.
pub const MAX_PAYLOAD_LEN: usize = 262144;

/// An event as the service carries and stores it.
#[derive(Debug, PartialEq, Eq)]
pub struct Event {
    pub event_id: String,
    pub tenant_id: String,
    pub event_type: String,
    pub event_timestamp: u64,
    pub payload: Value,
}

/// An event as a mathematical value.
#[verifier::ext_equal]
pub struct EventView {
    pub event_id: Seq<char>,
    pub tenant_id: Seq<char>,
    pub event_type: Seq<char>,
    pub event_timestamp: u64,
    pub payload: JsonView,
}

impl View for Event {
    type V = EventView;

    open spec fn view(&self) -> EventView {
        EventView {
            event_id: self.event_id@,
            tenant_id: self.tenant_id@,
            event_type: self.event_type@,
            event_timestamp: self.event_timestamp,
            payload: json_view(self.payload),
        }
    }
}

/// Why an event is refused.
#[derive(Debug, PartialEq)]
pub enum DomainError {
    EmptyField(String),
    TooLongField { name: String, max_len: usize },
    InvalidTimestamp,
}

/// A [`DomainError`] as a mathematical value.
pub enum DomainErrorView {
    EmptyField(Seq<char>),
    TooLongField { name: Seq<char>, max_len: usize },
    InvalidTimestamp,
}

impl View for DomainError {
    type V = DomainErrorView;

    open spec fn view(&self) -> DomainErrorView {
        match self {
            DomainError::EmptyField(name) => DomainErrorView::EmptyField(name@),
            DomainError::TooLongField { name, max_len } => DomainErrorView::TooLongField {
                name: name@,
                max_len: *max_len,
            },
            DomainError::InvalidTimestamp => DomainErrorView::InvalidTimestamp,
        }
    }
}

/// The length in bytes of a text.
pub open spec fn byte_len(text: Seq<char>) -> nat {
    encode_utf8(text).len()
}

/// What is wrong with a text field, if anything: it is blank, or longer than `max_len` bytes.
pub open spec fn field_fault(name: Seq<char>, value: Seq<char>, max_len: usize) -> Option<
    DomainErrorView,
> {
    if blank(value) {
        Some(DomainErrorView::EmptyField(name))
    } else if byte_len(value) > max_len {
        Some(DomainErrorView::TooLongField { name, max_len })
    } else {
        None
    }
}

/// The first fault of an event, in the order `event_id`, `tenant_id`, `event_type`, timestamp,
/// payload. `payload_len` is the length in bytes of the payload's text.
pub open spec fn first_fault(
    event_id: Seq<char>,
    tenant_id: Seq<char>,
    event_type: Seq<char>,
    timestamp: u64,
    payload_len: nat,
) -> Option<DomainErrorView> {
    if field_fault("event_id"@, event_id, MAX_EVENT_ID_LEN) is Some {
        field_fault("event_id"@, event_id, MAX_EVENT_ID_LEN)
    } else if field_fault("tenant_id"@, tenant_id, MAX_TENANT_ID_LEN) is Some {
        field_fault("tenant_id"@, tenant_id, MAX_TENANT_ID_LEN)
    } else if field_fault("event_type"@, event_type, MAX_EVENT_TYPE_LEN) is Some {
        field_fault("event_type"@, event_type, MAX_EVENT_TYPE_LEN)
    } else if timestamp == 0 {
        Some(DomainErrorView::InvalidTimestamp)
    } else if payload_len > MAX_PAYLOAD_LEN {
        Some(DomainErrorView::TooLongField { name: "payload"@, max_len: MAX_PAYLOAD_LEN })
    } else {
        None
    }
}

/// An event that met every rule.
pub open spec fn valid_event(event: EventView) -> bool {
    first_fault(
        event.event_id,
        event.tenant_id,
        event.event_type,
        event.event_timestamp,
        byte_len(event.payload.text),
    ) is None
}

/// Measures a text in bytes.
fn text_len(text: &str) -> (len: usize)
    ensures
        len == byte_len(text@),
{
    text.as_bytes().len()
}

fn check_field(name: &str, value: &str, max_len: usize) -> (result: Result<(), DomainError>)
    ensures
        match result {
            Ok(()) => field_fault(name@, value@, max_len) is None,
            Err(error) => field_fault(name@, value@, max_len) == Some(error@),
        },
{
    if is_blank(value) {
        return Err(DomainError::EmptyField(name.to_owned()));
    }
    if text_len(value) > max_len {
        return Err(DomainError::TooLongField { name: name.to_owned(), max_len });
    }
    Ok(())
}

/// Holds the fields of an event to the rules, given the length of its payload's text.
pub fn check_fields(
    event_id: &str,
    tenant_id: &str,
    event_type: &str,
    timestamp: u64,
    payload_len: usize,
) -> (result: Result<(), DomainError>)
    ensures
        match result {
            Ok(()) => first_fault(
                event_id@,
                tenant_id@,
                event_type@,
                timestamp,
                payload_len as nat,
            ) is None,
            Err(error) => first_fault(
                event_id@,
                tenant_id@,
                event_type@,
                timestamp,
                payload_len as nat,
            ) == Some(error@),
        },
{
    check_field("event_id", event_id, MAX_EVENT_ID_LEN)?;
    check_field("tenant_id", tenant_id, MAX_TENANT_ID_LEN)?;
    check_field("event_type", event_type, MAX_EVENT_TYPE_LEN)?;
    if timestamp == 0 {
        return Err(DomainError::InvalidTimestamp);
    }
    if payload_len > MAX_PAYLOAD_LEN {
        return Err(
            DomainError::TooLongField { name: "payload".to_owned(), max_len: MAX_PAYLOAD_LEN },
        );
    }
    Ok(())
}

impl Event {
    /// Makes an event of fields that meet every rule, and refuses others with their first fault.
    pub fn new(
        event_id: String,
        tenant_id: String,
        event_type: String,
        timestamp: u64,
        payload: Value,
    ) -> (result: Result<Self, DomainError>)
        ensures
            match result {
                Ok(event) => {
                    &&& valid_event(event@)
                    &&& event.event_id == event_id
                    &&& event.tenant_id == tenant_id
                    &&& event.event_type == event_type
                    &&& event.event_timestamp == timestamp
                    &&& event.payload == payload
                },
                Err(error) => first_fault(
                    event_id@,
                    tenant_id@,
                    event_type@,
                    timestamp,
                    byte_len(json_text(payload)),
                ) == Some(error@),
            },
    {
        let payload_text = value_text(&payload);
        check_fields(
            event_id.as_str(),
            tenant_id.as_str(),
            event_type.as_str(),
            timestamp,
            text_len(payload_text.as_str()),
        )?;
        Ok(Event { event_id, tenant_id, event_type, event_timestamp: timestamp, payload })
    }
}

impl Clone for Event {
    fn clone(&self) -> (copy: Self)
        ensures
            copy@ == self@,
            copy.event_id@ == self.event_id@,
            copy.tenant_id@ == self.tenant_id@,
            copy.event_type@ == self.event_type@,
            copy.event_timestamp == self.event_timestamp,
            json_text(copy.payload) == json_text(self.payload),
            json_key(copy.payload) == json_key(self.payload),
    {
        Event {
            event_id: self.event_id.clone(),
            tenant_id: self.tenant_id.clone(),
            event_type: self.event_type.clone(),
            event_timestamp: self.event_timestamp,
            payload: value_clone(&self.payload),
        }
    }
}

/// What the service can rely on of every event that it took: no text field is blank, every field
/// is within its limit, and the timestamp is positive.
pub proof fn law_accepted_event_is_bounded(event: EventView)
    ensures
        valid_event(event) <==> {
            &&& !blank(event.event_id) && byte_len(event.event_id) <= MAX_EVENT_ID_LEN
            &&& !blank(event.tenant_id) && byte_len(event.tenant_id) <= MAX_TENANT_ID_LEN
            &&& !blank(event.event_type) && byte_len(event.event_type) <= MAX_EVENT_TYPE_LEN
            &&& event.event_timestamp > 0
            &&& byte_len(event.payload.text) <= MAX_PAYLOAD_LEN
        },
{
}

/// The view of an event leaves nothing out: events with the same view have the same fields, each
/// of which the view holds.
pub proof fn law_view_keeps_every_field(a: Event, b: Event)
    ensures
        a@ == b@ <==> {
            &&& a.event_id@ == b.event_id@
            &&& a.tenant_id@ == b.tenant_id@
            &&& a.event_type@ == b.event_type@
            &&& a.event_timestamp == b.event_timestamp
            &&& json_text(a.payload) == json_text(b.payload)
            &&& json_key(a.payload) == json_key(b.payload)
        },
        a@.event_id == a.event_id@,
        a@.tenant_id == a.tenant_id@,
        a@.event_type == a.event_type@,
        a@.event_timestamp == a.event_timestamp,
        a@.payload.text == json_text(a.payload),
        a@.payload.key == json_key(a.payload),
{
}

/// A copy of an event has every field of the event.
pub proof fn law_copy_has_every_field(event: &Event, copy: Event)
    requires
        call_ensures(<Event as Clone>::clone, (event,), copy),
    ensures
        copy.event_id@ == event.event_id@,
        copy.tenant_id@ == event.tenant_id@,
        copy.event_type@ == event.event_type@,
        copy.event_timestamp == event.event_timestamp,
        json_text(copy.payload) == json_text(event.payload),
        json_key(copy.payload) == json_key(event.payload),
{
}

/// Whether a text may be a field of at most `limit` bytes: some character of it is not white
/// space, and its UTF-8 bytes are within the limit.
pub open spec fn may_be_field(text: Seq<char>, limit: int) -> bool {
    holds_more_than_space(text) && encode_utf8(text).len() <= limit
}

/// Whether `error` says of the field `name` what is wrong with `text`: that it holds nothing but
/// white space, or else that it has more than `limit` bytes.
pub open spec fn tells_fault(
    error: DomainError,
    name: Seq<char>,
    text: Seq<char>,
    limit: int,
) -> bool {
    match error {
        DomainError::EmptyField(field) => field@ == name && !holds_more_than_space(text),
        DomainError::TooLongField { name: field, max_len } => {
            &&& field@ == name
            &&& max_len == limit
            &&& holds_more_than_space(text)
            &&& encode_utf8(text).len() > limit
        },
        DomainError::InvalidTimestamp => false,
    }
}

/// Whether `error` tells the first fault of the given fields: nothing is wrong with the fields
/// before the one that it names.
pub open spec fn tells_first_fault(
    error: DomainError,
    event_id: Seq<char>,
    tenant_id: Seq<char>,
    event_type: Seq<char>,
    timestamp: u64,
    payload_len: nat,
) -> bool {
    if !may_be_field(event_id, 128) {
        tells_fault(error, "event_id"@, event_id, 128)
    } else if !may_be_field(tenant_id, 64) {
        tells_fault(error, "tenant_id"@, tenant_id, 64)
    } else if !may_be_field(event_type, 64) {
        tells_fault(error, "event_type"@, event_type, 64)
    } else if timestamp == 0 {
        error == DomainError::InvalidTimestamp
    } else {
        &&& payload_len > 262144
        &&& error matches DomainError::TooLongField { name, max_len } && name@ == "payload"@
            && max_len == 262144
    }
}

pub proof fn lemma_blank_or_more(text: Seq<char>)
    ensures
        blank(text) <==> !holds_more_than_space(text),
{
    assert(forall|c: char| is_white_space(c) <==> #[trigger] white_space_characters().contains(c));
    if !blank(text) {
        let i = choose|i: int| 0 <= i < text.len() && !is_white_space(#[trigger] text[i]);
        assert(!white_space_characters().contains(text[i]));
    }
}

/// Fields pass exactly if each text holds more than white space, the texts have at most 128, 64 and
/// 64 bytes, the timestamp is positive and the payload's text has at most 262144 bytes. Others are
/// refused with the first fault.
pub proof fn law_fields_pass_or_are_refused(
    event_id: &str,
    tenant_id: &str,
    event_type: &str,
    timestamp: u64,
    payload_len: usize,
    result: Result<(), DomainError>,
)
    requires
        call_ensures(
            check_fields,
            (event_id, tenant_id, event_type, timestamp, payload_len),
            result,
        ),
    ensures
        result is Ok <==> {
            &&& may_be_field(event_id@, 128)
            &&& may_be_field(tenant_id@, 64)
            &&& may_be_field(event_type@, 64)
            &&& timestamp > 0
            &&& payload_len <= 262144
        },
        result matches Err(error) ==> tells_first_fault(
            error,
            event_id@,
            tenant_id@,
            event_type@,
            timestamp,
            payload_len as nat,
        ),
{
    lemma_blank_or_more(event_id@);
    lemma_blank_or_more(tenant_id@);
    lemma_blank_or_more(event_type@);
}

/// An event is made exactly of fields that pass, and is made of those very fields. Others are
/// refused with the first fault.
pub proof fn law_event_is_made_or_refused(
    event_id: String,
    tenant_id: String,
    event_type: String,
    timestamp: u64,
    payload: Value,
    result: Result<Event, DomainError>,
)
    requires
        call_ensures(Event::new, (event_id, tenant_id, event_type, timestamp, payload), result),
    ensures
        result is Ok <==> {
            &&& may_be_field(event_id@, 128)
            &&& may_be_field(tenant_id@, 64)
            &&& may_be_field(event_type@, 64)
            &&& timestamp > 0
            &&& encode_utf8(json_text(payload)).len() <= 262144
        },
        result matches Ok(event) ==> {
            &&& event.event_id@ == event_id@
            &&& event.tenant_id@ == tenant_id@
            &&& event.event_type@ == event_type@
            &&& event.event_timestamp == timestamp
            &&& event.payload == payload
        },
        result matches Err(error) ==> tells_first_fault(
            error,
            event_id@,
            tenant_id@,
            event_type@,
            timestamp,
            encode_utf8(json_text(payload)).len(),
        ),
{
    lemma_blank_or_more(event_id@);
    lemma_blank_or_more(tenant_id@);
    lemma_blank_or_more(event_type@);
}

} // verus!
