//! The counters that the service keeps.

use crate::storage::{EventOutcome, StorageError};
use crate::text::{decimal, decimal_text, lemma_decimal_reads_back, number_read};
use vstd::prelude::*;

verus! {

/// A counter of the service.
#[derive(Debug, Clone, Copy, PartialEq, Eq, Structural)]
pub enum Counter {
    EventsReceived,
    EventsPersisted,
    EventsRejected,
    DbErrors,
}

impl Counter {
    /// The name under which the counter is exported.
    pub open spec fn name_view(self) -> Seq<char> {
        match self {
            Counter::EventsReceived => "events_received_total"@,
            Counter::EventsPersisted => "events_persisted_total"@,
            Counter::EventsRejected => "events_rejected_total"@,
            Counter::DbErrors => "db_errors_total"@,
        }
    }

    /// Gives the name under which the counter is exported.
    pub fn name(self) -> (name: &'static str)
        ensures
            name@ == self.name_view(),
    {
        match self {
            Counter::EventsReceived => "events_received_total",
            Counter::EventsPersisted => "events_persisted_total",
            Counter::EventsRejected => "events_rejected_total",
            Counter::DbErrors => "db_errors_total",
        }
    }
}

/// The counter that goes up when a batch was handed to the storage: one for an error, none
/// otherwise.
pub fn batch_counter(result: &Result<Vec<EventOutcome>, StorageError>) -> (counter: Option<
    Counter,
>)
    ensures
        counter == (if result is Err {
            Some(Counter::DbErrors)
        } else {
            None
        }),
{
    match result {
        Ok(_) => None,
        Err(_) => Some(Counter::DbErrors),
    }
}

/// A counter with one label, and by how much it goes up.
#[derive(Debug, PartialEq, Eq)]
pub struct LabelledCount {
    pub name: &'static str,
    pub label: &'static str,
    pub value: String,
    pub amount: u64,
}

/// How a response is counted: once, under its status in decimal.
pub fn response_count(status: u16) -> (count: LabelledCount)
    ensures
        count.name@ == "http_requests_total"@,
        count.label@ == "status"@,
        count.value@ == decimal(status as nat),
        count.amount == 1,
{
    LabelledCount {
        name: "http_requests_total",
        label: "status",
        value: decimal_text(status as u64),
        amount: 1,
    }
}

/// The name of the histogram of the time that requests take, in seconds.
pub fn duration_histogram() -> (name: &'static str)
    ensures
        name@ == "http_request_duration_seconds"@,
{
    "http_request_duration_seconds"
}

/// Every counter has the name under which it is exported.
pub proof fn law_counter_has_its_name(counter: Counter, name: &'static str)
    requires
        call_ensures(Counter::name, (counter,), name),
    ensures
        counter == Counter::EventsReceived ==> name@ == "events_received_total"@,
        counter == Counter::EventsPersisted ==> name@ == "events_persisted_total"@,
        counter == Counter::EventsRejected ==> name@ == "events_rejected_total"@,
        counter == Counter::DbErrors ==> name@ == "db_errors_total"@,
{
}

/// A batch raises the counter of database errors exactly if the storage failed, and no other.
pub proof fn law_failed_batch_is_a_database_error(
    result: &Result<Vec<EventOutcome>, StorageError>,
    counter: Option<Counter>,
)
    requires
        call_ensures(batch_counter, (result,), counter),
    ensures
        result is Err <==> counter == Some(Counter::DbErrors),
        result is Ok <==> counter is None,
{
}

/// A response is counted once, under its own status: the label reads back as the status.
pub proof fn law_response_is_counted_under_its_status(status: u16, count: LabelledCount)
    requires
        call_ensures(response_count, (status,), count),
    ensures
        count.name@ == "http_requests_total"@,
        count.label@ == "status"@,
        number_read(count.value@) == status,
        forall|i: int| 0 <= i < count.value@.len() ==> '0' <= #[trigger] count.value@[i] <= '9',
        count.value@.len() > 0,
        count.value@[0] == '0' ==> status == 0,
        count.amount == 1,
{
    lemma_decimal_reads_back(status as nat);
}

/// The time of requests is recorded under its own name.
pub proof fn law_duration_has_its_name(name: &'static str)
    requires
        call_ensures(duration_histogram, (), name),
    ensures
        name@ == "http_request_duration_seconds"@,
{
}

} // verus!
