//! What storing a batch of events means: which events are new, which repeat a stored event, and
//! which contradict one.
//!
//! The stored events are a table from event ids to events. [`store_one`] says what storing one
//! event does to it, and [`store_all`] and [`outcomes`] say the same of a batch, event by event.
//! The laws of this module hold of every storage that follows that model.

use crate::domain::{Event, EventView};
use crate::json::{json_key, value_eq};
use vstd::prelude::*;
use vstd::string::StringExecFns;

verus! {

/// Why a storage could not answer.
#[derive(Debug, PartialEq, Eq)]
pub enum StorageError {
    Database(String),
    ContractViolation(String),
    Unavailable(String),
}

impl StorageError {
    /// The text by which the error is reported.
    pub open spec fn message_view(self) -> Seq<char> {
        match self {
            StorageError::Database(message) => "Database error: "@ + message@,
            StorageError::ContractViolation(message) => "Contract Violation: "@ + message@,
            StorageError::Unavailable(message) => "Storage Unavailable: "@ + message@,
        }
    }

    /// Writes the error for a report.
    pub fn message(&self) -> (text: String)
        ensures
            text@ == self.message_view(),
    {
        match self {
            StorageError::Database(message) => "Database error: ".to_owned().concat(
                message.as_str(),
            ),
            StorageError::ContractViolation(message) => "Contract Violation: ".to_owned().concat(
                message.as_str(),
            ),
            StorageError::Unavailable(message) => "Storage Unavailable: ".to_owned().concat(
                message.as_str(),
            ),
        }
    }
}

/// What became of one event of a batch.
#[derive(Debug, Clone, Copy, PartialEq, Eq, Structural)]
pub enum EventOutcome {
    /// The event is new and was stored.
    Inserted,
    /// An event with the same id and the same content is stored already.
    Duplicate,
    /// An event with the same id and other content is stored already.
    Conflict,
}

/// Whether two events agree in everything but their ids.
pub open spec fn same_content(a: EventView, b: EventView) -> bool {
    &&& a.tenant_id == b.tenant_id
    &&& a.event_type == b.event_type
    &&& a.event_timestamp == b.event_timestamp
    &&& a.payload.key == b.payload.key
}

/// Decides [`same_content`].
pub fn same_event(a: &Event, b: &Event) -> (same: bool)
    ensures
        same == same_content(a@, b@),
{
    a.tenant_id == b.tenant_id && a.event_type == b.event_type && a.event_timestamp
        == b.event_timestamp && value_eq(&a.payload, &b.payload)
}

/// Having the same content is an equivalence.
pub proof fn law_same_content_is_equivalence(a: EventView, b: EventView, c: EventView)
    ensures
        same_content(a, a),
        same_content(a, b) ==> same_content(b, a),
        same_content(a, b) && same_content(b, c) ==> same_content(a, c),
{
}

/// The events of a batch as mathematical values.
pub open spec fn event_views(events: Seq<Event>) -> Seq<EventView> {
    Seq::new(events.len(), |i: int| events[i]@)
}

/// Stored events by their ids.
pub type Table = Map<Seq<char>, EventView>;

/// Stores one event: a new id is added, and a known id leaves the table as it is.
pub open spec fn store_one(table: Table, event: EventView) -> (Table, EventOutcome) {
    if !table.contains_key(event.event_id) {
        (table.insert(event.event_id, event), EventOutcome::Inserted)
    } else if same_content(table[event.event_id], event) {
        (table, EventOutcome::Duplicate)
    } else {
        (table, EventOutcome::Conflict)
    }
}

/// The table after storing `events` one after the other.
pub open spec fn store_all(table: Table, events: Seq<EventView>) -> Table
    decreases events.len(),
{
    if events.len() == 0 {
        table
    } else {
        store_one(store_all(table, events.drop_last()), events.last()).0
    }
}

/// The outcome of each of `events` when they are stored one after the other.
pub open spec fn outcomes(table: Table, events: Seq<EventView>) -> Seq<EventOutcome> {
    Seq::new(
        events.len(),
        |i: int| store_one(store_all(table, events.take(i)), events[i]).1,
    )
}

/// Whether no event before position `i` has the id of the event there.
pub open spec fn is_first(events: Seq<EventView>, i: int) -> bool {
    forall|j: int| 0 <= j < i ==> (#[trigger] events[j]).event_id != events[i].event_id
}

/// Whether `f` is the position of the first event with the id of the event at `i`.
pub open spec fn is_first_of(events: Seq<EventView>, f: int, i: int) -> bool {
    &&& 0 <= f <= i
    &&& events[f].event_id == events[i].event_id
    &&& is_first(events, f)
}

/// The position of the first event with the id of the event at `i`.
pub open spec fn first_index(events: Seq<EventView>, i: int) -> int {
    choose|f: int| is_first_of(events, f, i)
}

/// The events of a batch without those whose id occurred before.
pub open spec fn firsts(events: Seq<EventView>) -> Seq<EventView>
    decreases events.len(),
{
    if events.len() == 0 {
        Seq::empty()
    } else if is_first(events, events.len() - 1) {
        firsts(events.drop_last()).push(events.last())
    } else {
        firsts(events.drop_last())
    }
}

/// Rows by their ids. Where an id occurs twice the later row counts.
pub open spec fn rows_by_id(rows: Seq<EventView>) -> Table
    decreases rows.len(),
{
    if rows.len() == 0 {
        Map::empty()
    } else {
        rows_by_id(rows.drop_last()).insert(rows.last().event_id, rows.last())
    }
}

pub proof fn lemma_first_index(events: Seq<EventView>, i: int)
    requires
        0 <= i < events.len(),
    ensures
        is_first_of(events, first_index(events, i), i),
        forall|f: int| is_first_of(events, f, i) ==> f == first_index(events, i),
    decreases i,
{
    lemma_first_exists(events, i, i);
    let g = first_index(events, i);
    assert forall|f: int| is_first_of(events, f, i) implies f == g by {
        if f < g {
            assert(events[f].event_id != events[g].event_id);
        } else if g < f {
            assert(events[g].event_id != events[f].event_id);
        }
    }
}

proof fn lemma_first_exists(events: Seq<EventView>, k: int, i: int)
    requires
        0 <= k <= i < events.len(),
        events[k].event_id == events[i].event_id,
    ensures
        exists|f: int| is_first_of(events, f, i),
    decreases k,
{
    if is_first(events, k) {
        assert(is_first_of(events, k, i));
    } else {
        let j = choose|j: int| 0 <= j < k && (#[trigger] events[j]).event_id
            == events[k].event_id;
        lemma_first_exists(events, j, i);
    }
}

pub proof fn lemma_rows_by_id(rows: Seq<EventView>, id: Seq<char>)
    ensures
        rows_by_id(rows).contains_key(id) <==> exists|k: int|
            0 <= k < rows.len() && (#[trigger] rows[k]).event_id == id,
        rows_by_id(rows).contains_key(id) ==> rows_by_id(rows)[id].event_id == id,
    decreases rows.len(),
{
    if rows.len() > 0 {
        let rest = rows.drop_last();
        lemma_rows_by_id(rest, id);
        if rows_by_id(rows).contains_key(id) {
            if rows.last().event_id == id {
                assert(rows[rows.len() - 1].event_id == id);
            } else {
                let k = choose|k: int|
                    0 <= k < rest.len() && (#[trigger] rest[k]).event_id == id;
                assert(rows[k].event_id == id);
            }
        }
        if exists|k: int| 0 <= k < rows.len() && (#[trigger] rows[k]).event_id == id {
            let k = choose|k: int| 0 <= k < rows.len() && (#[trigger] rows[k]).event_id == id;
            if k < rest.len() {
                assert(rest[k].event_id == id);
            }
        }
    }
}

/// What storing a batch makes of the record of `id`: a stored record stays, and a new one is the
/// first event of the batch with that id.
pub proof fn law_record_after_batch(table: Table, events: Seq<EventView>, id: Seq<char>)
    ensures
        table.contains_key(id) ==> store_all(table, events).contains_key(id) && store_all(
            table,
            events,
        )[id] == table[id],
        !table.contains_key(id) ==> (store_all(table, events).contains_key(id) <==> exists|i: int|
            0 <= i < events.len() && (#[trigger] events[i]).event_id == id),
        !table.contains_key(id) ==> forall|i: int|
            0 <= i < events.len() && (#[trigger] events[i]).event_id == id && is_first(events, i)
                ==> store_all(table, events)[id] == events[i],
    decreases events.len(),
{
    if events.len() > 0 {
        let rest = events.drop_last();
        let last = events.len() - 1;
        law_record_after_batch(table, rest, id);
        if !table.contains_key(id) {
            if store_all(table, rest).contains_key(id) {
                let k = choose|k: int|
                    0 <= k < rest.len() && (#[trigger] rest[k]).event_id == id;
                assert(events[k].event_id == id);
            }
            if events.last().event_id == id {
                assert(events[last].event_id == id);
            }
            if exists|i: int| 0 <= i < events.len() && (#[trigger] events[i]).event_id == id {
                let i = choose|i: int|
                    0 <= i < events.len() && (#[trigger] events[i]).event_id == id;
                if i < last {
                    assert(rest[i].event_id == id);
                }
            }
            assert forall|i: int|
                0 <= i < events.len() && (#[trigger] events[i]).event_id == id && is_first(
                    events,
                    i,
                ) implies store_all(table, events)[id] == events[i] by {
                if i < last {
                    assert(rest[i].event_id == id);
                    assert forall|j: int| 0 <= j < i implies (#[trigger] rest[j]).event_id
                        != rest[i].event_id by {
                        assert(events[j].event_id != events[i].event_id);
                    }
                    assert(is_first(rest, i));
                } else {
                    assert forall|k: int| 0 <= k < rest.len() implies (#[trigger] rest[k]).event_id
                        != id by {
                        assert(events[k].event_id != events[i].event_id);
                    }
                    assert(!store_all(table, rest).contains_key(id));
                }
            }
        }
    }
}

/// Records are never changed: what is stored under an id stays, whatever batch comes. A conflict
/// modifies nothing.
pub proof fn law_stored_records_stay(table: Table, events: Seq<EventView>)
    ensures
        table.submap_of(store_all(table, events)),
{
    assert forall|id: Seq<char>| #[trigger] table.contains_key(id) implies store_all(
        table,
        events,
    ).contains_key(id) && store_all(table, events)[id] == table[id] by {
        law_record_after_batch(table, events, id);
    }
}

/// A table keyed by event ids keeps each event under its own id.
pub open spec fn keyed(table: Table) -> bool {
    forall|id: Seq<char>| #[trigger] table.contains_key(id) ==> table[id].event_id == id
}

/// Storing a batch keeps every record under its own id.
pub proof fn law_records_stay_keyed(table: Table, events: Seq<EventView>)
    requires
        keyed(table),
    ensures
        keyed(store_all(table, events)),
    decreases events.len(),
{
    if events.len() > 0 {
        law_records_stay_keyed(table, events.drop_last());
    }
}

proof fn lemma_prefix_first(events: Seq<EventView>, i: int, f: int)
    requires
        0 <= f < i <= events.len(),
    ensures
        is_first(events.take(i), f) == is_first(events, f),
{
    let prefix = events.take(i);
    if is_first(prefix, f) {
        assert forall|j: int| 0 <= j < f implies (#[trigger] events[j]).event_id
            != events[f].event_id by {
            assert(prefix[j].event_id != prefix[f].event_id);
        }
    }
    if is_first(events, f) {
        assert forall|j: int| 0 <= j < f implies (#[trigger] prefix[j]).event_id
            != prefix[f].event_id by {
            assert(events[j].event_id != events[f].event_id);
        }
    }
}

/// The outcome of each event of a batch, in closed form: against the record that was there before,
/// or else against the first event of the batch with the same id.
pub proof fn law_outcome_of_each(table: Table, events: Seq<EventView>, i: int)
    requires
        0 <= i < events.len(),
    ensures
        outcomes(table, events)[i] == ({
            let event = events[i];
            let first = first_index(events, i);
            if table.contains_key(event.event_id) {
                if same_content(table[event.event_id], event) {
                    EventOutcome::Duplicate
                } else {
                    EventOutcome::Conflict
                }
            } else if first == i {
                EventOutcome::Inserted
            } else if same_content(events[first], event) {
                EventOutcome::Duplicate
            } else {
                EventOutcome::Conflict
            }
        }),
{
    let event = events[i];
    let id = event.event_id;
    let prefix = events.take(i);
    let first = first_index(events, i);
    lemma_first_index(events, i);
    law_record_after_batch(table, prefix, id);
    if !table.contains_key(id) {
        if first < i {
            lemma_prefix_first(events, i, first);
            assert(prefix[first].event_id == id);
        } else {
            assert forall|k: int| 0 <= k < prefix.len() implies (#[trigger] prefix[k]).event_id
                != id by {
                assert(events[k].event_id != events[i].event_id);
            }
        }
    }
}

/// What a read gives back of a write: once an event was inserted, or found to be a duplicate, the
/// record under its id has its content.
pub proof fn law_read_after_write(table: Table, events: Seq<EventView>, i: int)
    requires
        0 <= i < events.len(),
        outcomes(table, events)[i] != EventOutcome::Conflict,
    ensures
        store_all(table, events).contains_key(events[i].event_id),
        same_content(store_all(table, events)[events[i].event_id], events[i]),
        outcomes(table, events)[i] == EventOutcome::Inserted ==> store_all(
            table,
            events,
        )[events[i].event_id] == events[i],
{
    let id = events[i].event_id;
    law_outcome_of_each(table, events, i);
    law_record_after_batch(table, events, id);
    lemma_first_index(events, i);
    let first = first_index(events, i);
    assert(events[first].event_id == id);
}

/// An event conflicts exactly when the record under its id, once the batch is stored, differs in
/// content.
pub proof fn law_conflict_means_other_content(table: Table, events: Seq<EventView>, i: int)
    requires
        0 <= i < events.len(),
    ensures
        outcomes(table, events)[i] == EventOutcome::Conflict <==> store_all(
            table,
            events,
        ).contains_key(events[i].event_id) && !same_content(
            store_all(table, events)[events[i].event_id],
            events[i],
        ),
{
    let id = events[i].event_id;
    law_outcome_of_each(table, events, i);
    law_record_after_batch(table, events, id);
    lemma_first_index(events, i);
    let first = first_index(events, i);
    assert(events[first].event_id == id);
}

/// Of the events of a batch that share an id, at most one is inserted, and one is if the id was
/// not stored before: the first.
pub proof fn law_one_record_per_id(table: Table, events: Seq<EventView>, i: int)
    requires
        0 <= i < events.len(),
    ensures
        outcomes(table, events)[i] == EventOutcome::Inserted <==> !table.contains_key(
            events[i].event_id,
        ) && is_first(events, i),
{
    law_outcome_of_each(table, events, i);
    lemma_first_index(events, i);
    if is_first(events, i) {
        assert(is_first_of(events, i, i));
    }
}

/// It does not matter how events are cut into batches: storing two batches one after the other
/// gives the table and the outcomes of storing them as one.
pub proof fn law_batches_compose(table: Table, a: Seq<EventView>, b: Seq<EventView>)
    ensures
        store_all(table, a + b) == store_all(store_all(table, a), b),
        outcomes(table, a + b) == outcomes(table, a) + outcomes(store_all(table, a), b),
{
    lemma_store_all_concat(table, a, b);
    let all = a + b;
    let left = outcomes(table, a) + outcomes(store_all(table, a), b);
    assert forall|i: int| 0 <= i < all.len() implies outcomes(table, all)[i] == left[i] by {
        if i < a.len() {
            assert(all.take(i) =~= a.take(i));
        } else {
            let k = i - a.len();
            assert(all.take(i) =~= a + b.take(k));
            lemma_store_all_concat(table, a, b.take(k));
        }
    }
    assert(outcomes(table, all) =~= left);
}

proof fn lemma_store_all_concat(table: Table, a: Seq<EventView>, b: Seq<EventView>)
    ensures
        store_all(table, a + b) == store_all(store_all(table, a), b),
    decreases b.len(),
{
    if b.len() == 0 {
        assert(a + b =~= a);
    } else {
        assert((a + b).drop_last() =~= a + b.drop_last());
        lemma_store_all_concat(table, a, b.drop_last());
    }
}

/// A retry is safe: storing a batch again adds no record, and finds a duplicate where the event
/// was accepted before and a conflict where it conflicted before.
pub proof fn law_retry_is_duplicate(table: Table, events: Seq<EventView>, i: int)
    requires
        0 <= i < events.len(),
    ensures
        store_all(store_all(table, events), events) == store_all(table, events),
        outcomes(store_all(table, events), events)[i] == (if outcomes(table, events)[i]
            == EventOutcome::Conflict {
            EventOutcome::Conflict
        } else {
            EventOutcome::Duplicate
        }),
{
    let stored = store_all(table, events);
    assert forall|id: Seq<char>| store_all(stored, events).contains_key(id)
        == stored.contains_key(id) by {
        law_record_after_batch(stored, events, id);
        law_record_after_batch(table, events, id);
    }
    assert forall|id: Seq<char>| #[trigger] stored.contains_key(id) implies store_all(
        stored,
        events,
    )[id] == stored[id] by {
        law_record_after_batch(stored, events, id);
    }
    assert(store_all(stored, events) =~= stored);
    law_record_after_batch(table, events, events[i].event_id);
    assert(events[i].event_id == events[i].event_id);
    law_outcome_of_each(stored, events, i);
    law_conflict_means_other_content(table, events, i);
}

/// A retry stays safe however late it comes: once an event was inserted, or found to be a
/// duplicate, storing it again after any other events finds a duplicate and changes no record.
pub proof fn law_late_retry_is_duplicate(
    table: Table,
    events: Seq<EventView>,
    i: int,
    later: Seq<EventView>,
)
    requires
        0 <= i < events.len(),
        outcomes(table, events)[i] != EventOutcome::Conflict,
    ensures
        ({
            let stored = store_all(store_all(table, events), later);
            store_one(stored, events[i]) == (stored, EventOutcome::Duplicate)
        }),
{
    law_read_after_write(table, events, i);
    law_record_after_batch(store_all(table, events), later, events[i].event_id);
}

/// Two events have the same content exactly if their tenants, types and timestamps are equal and
/// their payloads compare equal. One difference is enough to tell them apart.
pub proof fn law_same_event_compares_every_field(a: &Event, b: &Event, same: bool)
    requires
        call_ensures(same_event, (a, b), same),
    ensures
        a.tenant_id@ != b.tenant_id@ ==> !same,
        a.event_type@ != b.event_type@ ==> !same,
        a.event_timestamp != b.event_timestamp ==> !same,
        json_key(a.payload) != json_key(b.payload) ==> !same,
        a.tenant_id@ == b.tenant_id@ && a.event_type@ == b.event_type@ && a.event_timestamp
            == b.event_timestamp && json_key(a.payload) == json_key(b.payload) ==> same,
{
}

/// Under an id that is stored, an event that differs from the record in its tenant, its type, its
/// timestamp or what its payload is compared by is a conflict, and any other is a duplicate.
pub proof fn law_changed_field_is_a_conflict(table: Table, events: Seq<EventView>, i: int)
    requires
        0 <= i < events.len(),
        table.contains_key(events[i].event_id),
    ensures
        ({
            let event = events[i];
            let record = table[event.event_id];
            let same = {
                &&& record.tenant_id == event.tenant_id
                &&& record.event_type == event.event_type
                &&& record.event_timestamp == event.event_timestamp
                &&& record.payload.key == event.payload.key
            };
            &&& same ==> outcomes(table, events)[i] == EventOutcome::Duplicate
            &&& !same ==> outcomes(table, events)[i] == EventOutcome::Conflict
        }),
{
    law_outcome_of_each(table, events, i);
}

/// What storing a batch makes of the table: every record stays as it was, the id of every event has
/// a record, and the record of a new id is the whole first event of the batch with that id.
pub proof fn law_table_after_batch(table: Table, events: Seq<EventView>, id: Seq<char>)
    ensures
        table.contains_key(id) ==> store_all(table, events).contains_key(id) && store_all(
            table,
            events,
        )[id] == table[id],
        forall|i: int|
            0 <= i < events.len() && (#[trigger] events[i]).event_id == id ==> store_all(
                table,
                events,
            ).contains_key(id),
        store_all(table, events).contains_key(id) && !table.contains_key(id) ==> exists|i: int|
            {
                &&& 0 <= i < events.len()
                &&& (#[trigger] events[i]).event_id == id
                &&& forall|j: int| 0 <= j < i ==> (#[trigger] events[j]).event_id != id
                &&& store_all(table, events)[id] == events[i]
            },
{
    law_record_after_batch(table, events, id);
    if store_all(table, events).contains_key(id) && !table.contains_key(id) {
        let k = choose|k: int| 0 <= k < events.len() && (#[trigger] events[k]).event_id == id;
        lemma_first_index(events, k);
        let first = first_index(events, k);
        assert(events[first].event_id == id);
    }
}

/// What every event of a batch comes to, told by the events and the table alone: it is inserted if
/// its id has no record and no event before it has that id; otherwise it is held against the record,
/// or against the first event with its id.
pub proof fn law_outcome_from_the_events(table: Table, events: Seq<EventView>, i: int, f: int)
    requires
        0 <= f <= i < events.len(),
        events[f].event_id == events[i].event_id,
        forall|j: int| 0 <= j < f ==> (#[trigger] events[j]).event_id != events[i].event_id,
    ensures
        outcomes(table, events).len() == events.len(),
        ({
            let event = events[i];
            let canonical = if table.contains_key(event.event_id) {
                table[event.event_id]
            } else {
                events[f]
            };
            let same = {
                &&& canonical.tenant_id == event.tenant_id
                &&& canonical.event_type == event.event_type
                &&& canonical.event_timestamp == event.event_timestamp
                &&& canonical.payload.key == event.payload.key
            };
            outcomes(table, events)[i] == (if !same {
                EventOutcome::Conflict
            } else if f == i && !table.contains_key(event.event_id) {
                EventOutcome::Inserted
            } else {
                EventOutcome::Duplicate
            })
        }),
{
    assert(is_first_of(events, f, i));
    lemma_first_index(events, i);
    law_outcome_of_each(table, events, i);
}

/// An error is reported by its kind and its own text.
pub proof fn law_message_tells_kind_and_text(error: &StorageError, text: String)
    requires
        call_ensures(StorageError::message, (error,), text),
    ensures
        match *error {
            StorageError::Database(message) => text@ == "Database error: "@ + message@,
            StorageError::ContractViolation(message) => text@ == "Contract Violation: "@ + message@,
            StorageError::Unavailable(message) => text@ == "Storage Unavailable: "@ + message@,
        },
{
}

} // verus!
