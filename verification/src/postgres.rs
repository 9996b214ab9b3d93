//! Storing a whole batch in a relational table at once.
//!
//! The database is given the columns of an [`InsertPlan`] and inserts the rows whose ids are new.
//! It answers with the ids that it inserted, and is then asked for the rows of the other ids.
//! [`classify`] turns the two answers into the outcome of each event.

use crate::domain::{Event, EventView};
use crate::storage::{
    event_views, first_index, firsts, is_first, is_first_of, law_outcome_of_each,
    law_record_after_batch, lemma_first_index, lemma_rows_by_id, outcomes, rows_by_id,
    same_content, same_event, store_all, EventOutcome, Table,
};
use crate::json::json_view;
use serde_json::Value;
use vstd::hash_map::StringHashMap;
use vstd::hash_set::StringHashSet;
use vstd::prelude::*;

verus! {

/// How a timestamp is kept in a signed 64-bit column: the same 64 bits, in two's complement.
pub open spec fn column_value(timestamp: u64) -> int {
    if timestamp <= i64::MAX {
        timestamp as int
    } else {
        timestamp - 0x1_0000_0000_0000_0000
    }
}

/// Turns a timestamp into its column value.
pub fn timestamp_to_column(timestamp: u64) -> (column: i64)
    ensures
        column == column_value(timestamp),
{
    let column = timestamp as i64;
    assert(timestamp <= i64::MAX ==> column == timestamp) by (bit_vector)
        requires
            column == timestamp as i64,
    ;
    assert(timestamp > i64::MAX ==> column == timestamp - 0x1_0000_0000_0000_0000) by (bit_vector)
        requires
            column == timestamp as i64,
    ;
    column
}

/// Turns a column value back into the timestamp that it was made of.
pub fn timestamp_from_column(column: i64) -> (timestamp: u64)
    ensures
        column_value(timestamp) == column,
{
    let timestamp = column as u64;
    assert(column >= 0 ==> timestamp == column) by (bit_vector)
        requires
            timestamp == column as u64,
    ;
    assert(column < 0 ==> timestamp == column + 0x1_0000_0000_0000_0000) by (bit_vector)
        requires
            timestamp == column as u64,
    ;
    timestamp
}

/// Makes an event of the columns of one row.
pub fn event_from_row(
    event_id: String,
    tenant_id: String,
    event_type: String,
    event_timestamp: i64,
    payload: Value,
) -> (event: Event)
    ensures
        event.event_id == event_id,
        event.tenant_id == tenant_id,
        event.event_type == event_type,
        column_value(event.event_timestamp) == event_timestamp,
        event.payload == payload,
{
    Event {
        event_id,
        tenant_id,
        event_type,
        event_timestamp: timestamp_from_column(event_timestamp),
        payload,
    }
}

/// The columns by which a batch is inserted: one row for each id that occurs in the batch, taken
/// from the first event with that id.
pub struct InsertPlan<'a> {
    pub event_ids: Vec<&'a String>,
    pub tenant_ids: Vec<&'a String>,
    pub event_types: Vec<&'a String>,
    pub event_timestamps: Vec<i64>,
    pub payloads: Vec<&'a Value>,
}

impl<'a> InsertPlan<'a> {
    /// Whether the columns hold the rows of `rows`, in their order.
    pub open spec fn holds(self, rows: Seq<EventView>) -> bool {
        &&& self.event_ids@.len() == rows.len()
        &&& self.tenant_ids@.len() == rows.len()
        &&& self.event_types@.len() == rows.len()
        &&& self.event_timestamps@.len() == rows.len()
        &&& self.payloads@.len() == rows.len()
        &&& forall|k: int|
            0 <= k < rows.len() ==> {
                &&& (#[trigger] self.event_ids@[k])@ == rows[k].event_id
                &&& self.tenant_ids@[k]@ == rows[k].tenant_id
                &&& self.event_types@[k]@ == rows[k].event_type
                &&& self.event_timestamps@[k] == column_value(rows[k].event_timestamp)
                &&& json_view(*self.payloads@[k]) == rows[k].payload
            }
    }

    /// Plans the insertion of `events`. An empty batch needs none.
    pub fn new(events: &'a [Event]) -> (plan: Option<InsertPlan<'a>>)
        ensures
            plan is None <==> events@.len() == 0,
            plan matches Some(plan) ==> plan.holds(firsts(event_views(events@))),
    {
        if events.is_empty() {
            return None;
        }
        let mut seen = StringHashSet::with_capacity(events.len());
        let mut plan = InsertPlan {
            event_ids: Vec::with_capacity(events.len()),
            tenant_ids: Vec::with_capacity(events.len()),
            event_types: Vec::with_capacity(events.len()),
            event_timestamps: Vec::with_capacity(events.len()),
            payloads: Vec::with_capacity(events.len()),
        };
        let ghost views = event_views(events@);
        let mut index: usize = 0;
        while index < events.len()
            invariant
                index <= events@.len(),
                views == event_views(events@),
                forall|id: Seq<char>|
                    #[trigger] seen@.contains(id) <==> exists|j: int|
                        0 <= j < index && (#[trigger] views[j]).event_id == id,
                plan.holds(firsts(views.take(index as int))),
            decreases events.len() - index,
        {
            let event = &events[index];
            let ghost before = views.take(index as int);
            let ghost now = views.take(index + 1);
            assert(now.drop_last() =~= before);
            assert(now.last() == event@);
            if seen.insert(event.event_id.clone()) {
                assert(is_first(now, index as int));
                plan.event_ids.push(&event.event_id);
                plan.tenant_ids.push(&event.tenant_id);
                plan.event_types.push(&event.event_type);
                plan.event_timestamps.push(timestamp_to_column(event.event_timestamp));
                plan.payloads.push(&event.payload);
            } else {
                proof {
                    let j = choose|j: int|
                        0 <= j < index && (#[trigger] views[j]).event_id == event@.event_id;
                    assert(now[j].event_id == now[index as int].event_id);
                }
                assert(!is_first(now, index as int));
            }
            assert(views[index as int].event_id == event@.event_id);
            index += 1;
        }
        assert(views.take(index as int) =~= views);
        Some(plan)
    }

    /// The ids of the plan without those that were inserted.
    pub open spec fn not_inserted(self, inserted: Set<Seq<char>>) -> Seq<&'a String> {
        self.event_ids@.filter(|id: &'a String| !inserted.contains(id@))
    }

    /// The ids of the plan that the database did not insert, in their order: their rows were there
    /// before.
    pub fn ids_to_look_up(&self, inserted_ids: &[String]) -> (ids: Vec<&'a String>)
        ensures
            ids@ == self.not_inserted(id_set(inserted_ids@)),
    {
        let inserted = collect_ids(inserted_ids);
        let ghost absent = |id: &'a String| !id_set(inserted_ids@).contains(id@);
        let mut ids: Vec<&'a String> = Vec::new();
        let mut index: usize = 0;
        assert(self.event_ids@.take(0).filter(absent) =~= Seq::empty()) by {
            reveal(Seq::filter);
        }
        while index < self.event_ids.len()
            invariant
                index <= self.event_ids@.len(),
                inserted@ == id_set(inserted_ids@),
                absent == (|id: &'a String| !id_set(inserted_ids@).contains(id@)),
                ids@ == self.event_ids@.take(index as int).filter(absent),
            decreases self.event_ids.len() - index,
        {
            let id = self.event_ids[index];
            proof {
                let now = self.event_ids@.take(index + 1);
                assert(now.drop_last() =~= self.event_ids@.take(index as int));
                assert(now.last() == id);
                reveal(Seq::filter);
            }
            if !inserted.contains(id.as_str()) {
                ids.push(id);
            }
            index += 1;
        }
        assert(self.event_ids@.take(index as int) =~= self.event_ids@);
        ids
    }
}

/// The ids of a list, as a set.
pub open spec fn id_set(ids: Seq<String>) -> Set<Seq<char>> {
    ids.map_values(|id: String| id@).to_set()
}

fn collect_ids(ids: &[String]) -> (set: StringHashSet)
    ensures
        set@ == id_set(ids@),
{
    let mut set = StringHashSet::with_capacity(ids.len());
    let mut index: usize = 0;
    let ghost views = ids@.map_values(|id: String| id@);
    while index < ids.len()
        invariant
            index <= ids@.len(),
            views == ids@.map_values(|id: String| id@),
            forall|id: Seq<char>| #[trigger]
                set@.contains(id) <==> exists|j: int| 0 <= j < index && #[trigger] views[j] == id,
        decreases ids.len() - index,
    {
        assert(views[index as int] == ids@[index as int]@);
        let _ = set.insert(ids[index].clone());
        index += 1;
    }
    assert forall|id: Seq<char>| set@.contains(id) == id_set(ids@).contains(id) by {
        if set@.contains(id) {
            let j = choose|j: int| 0 <= j < index && #[trigger] views[j] == id;
            assert(views.contains(views[j]));
        }
    }
    assert(set@ =~= id_set(ids@));
    set
}

/// Whether the answers of the database decide the outcome of an event with `id`: the id was
/// inserted, or a row with it was found.
pub open spec fn id_decided(id: Seq<char>, inserted: Set<Seq<char>>, existing: Table) -> bool {
    inserted.contains(id) || existing.contains_key(id)
}

/// Whether the answers of the database decide the outcome of every event.
pub open spec fn decided(
    events: Seq<EventView>,
    inserted: Set<Seq<char>>,
    existing: Table,
) -> bool {
    forall|i: int|
        0 <= i < events.len() ==> id_decided((#[trigger] events[i]).event_id, inserted, existing)
}

/// The outcome of an event, from whether its id was inserted, whether it is the first of its batch
/// with that id, and whether it has the content of the event that is stored.
pub fn event_outcome(inserted: bool, first: bool, same: bool) -> (outcome: EventOutcome)
    ensures
        outcome == (if !same {
            EventOutcome::Conflict
        } else if inserted && first {
            EventOutcome::Inserted
        } else {
            EventOutcome::Duplicate
        }),
{
    if !same {
        EventOutcome::Conflict
    } else if inserted && first {
        EventOutcome::Inserted
    } else {
        EventOutcome::Duplicate
    }
}

/// The outcome of the event at `i`, given the ids that were inserted and the rows found.
///
/// Where the id was inserted, the first event with that id is the one that is stored. Otherwise
/// the row found is.
pub open spec fn batch_outcome(
    events: Seq<EventView>,
    inserted: Set<Seq<char>>,
    existing: Table,
    i: int,
) -> EventOutcome {
    let event = events[i];
    if inserted.contains(event.event_id) {
        let first = first_index(events, i);
        if !same_content(events[first], event) {
            EventOutcome::Conflict
        } else if i == first {
            EventOutcome::Inserted
        } else {
            EventOutcome::Duplicate
        }
    } else if same_content(existing[event.event_id], event) {
        EventOutcome::Duplicate
    } else {
        EventOutcome::Conflict
    }
}

/// The position of the last row with each id.
fn index_rows(rows: &[Event]) -> (by_id: StringHashMap<usize>)
    ensures
        by_id@.dom() == rows_by_id(event_views(rows@)).dom(),
        forall|id: Seq<char>| #[trigger]
            by_id@.contains_key(id) ==> by_id@[id] < rows@.len() && rows@[by_id@[id] as int]@
                == rows_by_id(event_views(rows@))[id],
{
    let mut by_id: StringHashMap<usize> = StringHashMap::with_capacity(rows.len());
    let mut index: usize = 0;
    let ghost views = event_views(rows@);
    assert(by_id@.dom() =~= rows_by_id(views.take(0)).dom());
    while index < rows.len()
        invariant
            index <= rows@.len(),
            views == event_views(rows@),
            by_id@.dom() == rows_by_id(views.take(index as int)).dom(),
            forall|id: Seq<char>| #[trigger]
                by_id@.contains_key(id) ==> by_id@[id] < rows@.len()
                    && rows@[by_id@[id] as int]@ == rows_by_id(views.take(index as int))[id],
        decreases rows.len() - index,
    {
        let ghost before = by_id@;
        let ghost now = views.take(index + 1);
        assert(now.drop_last() =~= views.take(index as int));
        assert(now.last() == rows@[index as int]@);
        by_id.insert(rows[index].event_id.clone(), index);
        assert(by_id@.dom() =~= rows_by_id(now).dom());
        assert forall|id: Seq<char>| #[trigger] by_id@.contains_key(id) implies by_id@[id]
            < rows@.len() && rows@[by_id@[id] as int]@ == rows_by_id(now)[id] by {
            if id != now.last().event_id {
                assert(before.contains_key(id));
            }
        }
        index += 1;
    }
    assert(views.take(index as int) =~= views);
    by_id
}

/// The position of the first event with each id.
fn index_firsts(events: &[Event]) -> (by_id: StringHashMap<usize>)
    ensures
        forall|i: int|
            0 <= i < events@.len() ==> by_id@.contains_key((#[trigger] events@[i])@.event_id)
                && by_id@[events@[i]@.event_id] == first_index(event_views(events@), i),
{
    let mut by_id: StringHashMap<usize> = StringHashMap::with_capacity(events.len());
    let mut index: usize = 0;
    let ghost views = event_views(events@);
    while index < events.len()
        invariant
            index <= events@.len(),
            views == event_views(events@),
            forall|id: Seq<char>| #[trigger]
                by_id@.contains_key(id) ==> exists|j: int|
                    0 <= j < index && (#[trigger] views[j]).event_id == id,
            forall|i: int|
                0 <= i < index ==> by_id@.contains_key((#[trigger] events@[i])@.event_id)
                    && is_first_of(views, by_id@[events@[i]@.event_id] as int, i),
        decreases events.len() - index,
    {
        let id = &events[index].event_id;
        assert(views[index as int].event_id == id@);
        if !by_id.contains_key(id.as_str()) {
            proof {
                assert forall|j: int| 0 <= j < index implies (#[trigger] views[j]).event_id
                    != id@ by {
                    assert(by_id@.contains_key(events@[j]@.event_id));
                }
                assert(is_first_of(views, index as int, index as int));
            }
            let ghost before = by_id@;
            by_id.insert(id.clone(), index);
            assert forall|i: int| 0 <= i < index + 1 implies by_id@.contains_key(
                (#[trigger] events@[i])@.event_id,
            ) && is_first_of(views, by_id@[events@[i]@.event_id] as int, i) by {
                if i < index {
                    assert(before.contains_key(events@[i]@.event_id));
                }
            }
        } else {
            proof {
                let j = choose|j: int| 0 <= j < index && (#[trigger] views[j]).event_id == id@;
                assert(is_first_of(views, by_id@[events@[j]@.event_id] as int, j));
                assert(is_first_of(views, by_id@[id@] as int, index as int));
            }
        }
        index += 1;
    }
    proof {
        assert forall|i: int| 0 <= i < events@.len() implies by_id@.contains_key(
            (#[trigger] events@[i])@.event_id,
        ) && by_id@[events@[i]@.event_id] == first_index(views, i) by {
            lemma_first_index(views, i);
        }
    }
    by_id
}

/// The first event whose outcome the answers of the database leave open, if there is one.
pub fn first_undecided(events: &[Event], inserted_ids: &[String], existing: &[Event]) -> (index:
    Option<usize>)
    ensures
        ({
            let inserted = id_set(inserted_ids@);
            let found = rows_by_id(event_views(existing@));
            match index {
                None => decided(event_views(events@), inserted, found),
                Some(index) => {
                    &&& index < events@.len()
                    &&& !id_decided(events@[index as int]@.event_id, inserted, found)
                    &&& forall|j: int|
                        0 <= j < index ==> id_decided(
                            (#[trigger] events@[j])@.event_id,
                            inserted,
                            found,
                        )
                },
            }
        }),
{
    let inserted = collect_ids(inserted_ids);
    let by_id = index_rows(existing);
    let mut index: usize = 0;
    let ghost found = rows_by_id(event_views(existing@));
    while index < events.len()
        invariant
            index <= events@.len(),
            found == rows_by_id(event_views(existing@)),
            inserted@ == id_set(inserted_ids@),
            by_id@.dom() == found.dom(),
            forall|j: int|
                0 <= j < index ==> id_decided(
                    (#[trigger] events@[j])@.event_id,
                    inserted@,
                    found,
                ),
        decreases events.len() - index,
    {
        let id = events[index].event_id.as_str();
        assert(by_id@.dom().contains(id@) == by_id@.contains_key(id@));
        assert(found.dom().contains(id@) == found.contains_key(id@));
        if !inserted.contains(id) && !by_id.contains_key(id) {
            return Some(index);
        }
        index += 1;
    }
    assert forall|i: int| 0 <= i < event_views(events@).len() implies id_decided(
        (#[trigger] event_views(events@)[i]).event_id,
        inserted@,
        found,
    ) by {
        assert(event_views(events@)[i] == events@[i]@);
    }
    None
}

/// Gives the outcome of every event of a batch, from the ids that were inserted and the rows that
/// were found.
pub fn classify(events: &[Event], inserted_ids: &[String], existing: &[Event]) -> (result: Vec<
    EventOutcome,
>)
    requires
        decided(
            event_views(events@),
            id_set(inserted_ids@),
            rows_by_id(event_views(existing@)),
        ),
    ensures
        result@ == Seq::new(
            events@.len(),
            |i: int|
                batch_outcome(
                    event_views(events@),
                    id_set(inserted_ids@),
                    rows_by_id(event_views(existing@)),
                    i,
                ),
        ),
{
    let inserted = collect_ids(inserted_ids);
    let existing_by_id = index_rows(existing);
    let first_index_by_id = index_firsts(events);
    let mut result: Vec<EventOutcome> = Vec::with_capacity(events.len());
    let ghost views = event_views(events@);
    let ghost found = rows_by_id(event_views(existing@));
    let mut index: usize = 0;
    while index < events.len()
        invariant
            index <= events@.len(),
            views == event_views(events@),
            found == rows_by_id(event_views(existing@)),
            inserted@ == id_set(inserted_ids@),
            decided(views, inserted@, found),
            existing_by_id@.dom() == found.dom(),
            forall|id: Seq<char>| #[trigger]
                existing_by_id@.contains_key(id) ==> existing_by_id@[id] < existing@.len()
                    && existing@[existing_by_id@[id] as int]@ == found[id],
            forall|i: int|
                0 <= i < events@.len() ==> first_index_by_id@.contains_key(
                    (#[trigger] events@[i])@.event_id,
                ) && first_index_by_id@[events@[i]@.event_id] == first_index(views, i),
            result@ == Seq::new(
                index as nat,
                |i: int| batch_outcome(views, inserted@, found, i),
            ),
        decreases events.len() - index,
    {
        let event = &events[index];
        let id = event.event_id.as_str();
        proof {
            assert(views[index as int] == event@);
            lemma_first_index(views, index as int);
            assert(existing_by_id@.dom().contains(id@) == existing_by_id@.contains_key(id@));
            assert(found.dom().contains(id@) == found.contains_key(id@));
        }
        let outcome = if inserted.contains(id) {
            let first: usize = *first_index_by_id.get(id).unwrap();
            event_outcome(true, index == first, same_event(&events[first], event))
        } else {
            let row: usize = *existing_by_id.get(id).unwrap();
            event_outcome(false, false, same_event(&existing[row], event))
        };
        assert(outcome == batch_outcome(views, inserted@, found, index as int));
        result.push(outcome);
        index += 1;
    }
    result
}

/// A timestamp comes back from its column as it was: no two timestamps share a column value, and
/// the value always fits the column.
pub proof fn law_timestamp_round_trip(a: u64, b: u64)
    ensures
        i64::MIN <= column_value(a) <= i64::MAX,
        column_value(a) == column_value(b) ==> a == b,
{
}

proof fn lemma_first_row(events: Seq<EventView>, i: int)
    requires
        0 <= i < events.len(),
        is_first(events, i),
    ensures
        rows_by_id(firsts(events)).contains_key(events[i].event_id),
        rows_by_id(firsts(events))[events[i].event_id] == events[i],
    decreases events.len(),
{
    let last = events.len() - 1;
    lemma_first_rows_step(events);
    if i < last {
        lemma_first_in_rest(events, i);
        lemma_first_row(events.drop_last(), i);
        if is_first(events, last) {
            assert(events[i].event_id != events[last].event_id);
        }
    }
}

proof fn lemma_row_source(events: Seq<EventView>, id: Seq<char>) -> (i: int)
    requires
        rows_by_id(firsts(events)).contains_key(id),
    ensures
        0 <= i < events.len(),
        events[i].event_id == id,
    decreases events.len(),
{
    if events.len() == 0 {
        assert(false);
        0
    } else {
        let last = events.len() - 1;
        lemma_first_rows_step(events);
        if events[last].event_id == id {
            last
        } else {
            lemma_row_source(events.drop_last(), id)
        }
    }
}

/// The plan has a row for exactly the ids that occur in the batch, taken from the first event with
/// the id.
proof fn lemma_first_rows(events: Seq<EventView>, id: Seq<char>)
    ensures
        rows_by_id(firsts(events)).contains_key(id) <==> exists|i: int|
            0 <= i < events.len() && (#[trigger] events[i]).event_id == id,
        forall|i: int|
            0 <= i < events.len() && (#[trigger] events[i]).event_id == id && is_first(events, i)
                ==> rows_by_id(firsts(events))[id] == events[i],
{
    if rows_by_id(firsts(events)).contains_key(id) {
        let i = lemma_row_source(events, id);
        assert(events[i].event_id == id);
    }
    if exists|i: int| 0 <= i < events.len() && (#[trigger] events[i]).event_id == id {
        let i = choose|i: int| 0 <= i < events.len() && (#[trigger] events[i]).event_id == id;
        lemma_first_index(events, i);
        lemma_first_row(events, first_index(events, i));
    }
    assert forall|i: int|
        0 <= i < events.len() && (#[trigger] events[i]).event_id == id && is_first(
            events,
            i,
        ) implies rows_by_id(firsts(events))[id] == events[i] by {
        lemma_first_row(events, i);
    }
}

proof fn lemma_first_rows_step(events: Seq<EventView>)
    requires
        events.len() > 0,
    ensures
        rows_by_id(firsts(events)) == (if is_first(events, events.len() - 1) {
            rows_by_id(firsts(events.drop_last())).insert(events.last().event_id, events.last())
        } else {
            rows_by_id(firsts(events.drop_last()))
        }),
{
    if is_first(events, events.len() - 1) {
        assert(firsts(events).drop_last() =~= firsts(events.drop_last()));
    }
}

proof fn lemma_first_in_rest(events: Seq<EventView>, i: int)
    requires
        0 <= i < events.len() - 1,
        is_first(events, i),
    ensures
        is_first(events.drop_last(), i),
        events.drop_last()[i] == events[i],
{
    let rest = events.drop_last();
    assert forall|j: int| 0 <= j < i implies (#[trigger] rest[j]).event_id
        != rest[i].event_id by {
        assert(events[j].event_id != events[i].event_id);
    }
}

/// Inserting the rows of the plan, where their ids are new, leaves the table that storing the
/// events one after the other does.
pub proof fn law_insert_stores_the_batch(table: Table, events: Seq<EventView>)
    ensures
        rows_by_id(firsts(events)).union_prefer_right(table) == store_all(table, events),
{
    let inserted = rows_by_id(firsts(events)).union_prefer_right(table);
    let stored = store_all(table, events);
    assert forall|id: Seq<char>| inserted.contains_key(id) == stored.contains_key(id) by {
        lemma_first_rows(events, id);
        law_record_after_batch(table, events, id);
    }
    assert forall|id: Seq<char>| #[trigger] inserted.contains_key(id) implies inserted[id]
        == stored[id] by {
        lemma_first_rows(events, id);
        law_record_after_batch(table, events, id);
        if !table.contains_key(id) {
            let i = choose|i: int| 0 <= i < events.len() && (#[trigger] events[i]).event_id == id;
            lemma_first_index(events, i);
            let first = first_index(events, i);
            assert(events[first].event_id == id);
        }
    }
    assert(inserted =~= stored);
}

/// The plan names every id once.
pub proof fn law_plan_ids_are_distinct(events: Seq<EventView>)
    ensures
        forall|i: int, j: int|
            0 <= i < j < firsts(events).len() ==> (#[trigger] firsts(events)[i]).event_id != (
            #[trigger] firsts(events)[j]).event_id,
    decreases events.len(),
{
    if events.len() > 0 {
        let rest = events.drop_last();
        law_plan_ids_are_distinct(rest);
        if is_first(events, events.len() - 1) {
            let id = events.last().event_id;
            lemma_first_rows(rest, id);
            lemma_rows_by_id(firsts(rest), id);
            if rows_by_id(firsts(rest)).contains_key(id) {
                let k = choose|k: int| 0 <= k < rest.len() && (#[trigger] rest[k]).event_id == id;
                assert(events[k].event_id != events[events.len() - 1].event_id);
            }
        }
    }
}

/// The look-up asks for what is needed and for nothing else: for every event whose id was not
/// inserted it names that id, and every id that it names is the id of such an event.
pub proof fn law_look_up_names_the_rest<'a>(
    plan: InsertPlan<'a>,
    events: Seq<EventView>,
    inserted: Set<Seq<char>>,
    id: Seq<char>,
)
    requires
        plan.holds(firsts(events)),
    ensures
        (exists|k: int|
            0 <= k < plan.not_inserted(inserted).len() && (#[trigger] plan.not_inserted(
                inserted,
            )[k])@ == id) <==> !inserted.contains(id) && exists|i: int|
            0 <= i < events.len() && (#[trigger] events[i]).event_id == id,
{
    let absent = |id: &'a String| !inserted.contains(id@);
    let asked = plan.not_inserted(inserted);
    lemma_first_rows(events, id);
    lemma_rows_by_id(firsts(events), id);
    if exists|k: int| 0 <= k < asked.len() && (#[trigger] asked[k])@ == id {
        let k = choose|k: int| 0 <= k < asked.len() && (#[trigger] asked[k])@ == id;
        assert(absent(asked[k]));
        assert(asked.contains(asked[k]));
        plan.event_ids@.lemma_filter_contains_rev(absent, asked[k]);
        let r = plan.event_ids@.index_of(asked[k]);
        assert(firsts(events)[r].event_id == id);
    }
    if !inserted.contains(id) && rows_by_id(firsts(events)).contains_key(id) {
        let r = choose|r: int|
            0 <= r < firsts(events).len() && (#[trigger] firsts(events)[r]).event_id == id;
        assert(plan.event_ids@[r]@ == id);
        assert(asked.contains(plan.event_ids@[r]));
    }
}

/// Storing a batch at once gives every event the outcome that it has when the events are stored
/// one after the other: the database inserts the ids that its table did not hold, and finds the
/// rows of the others with the content they were stored with.
pub proof fn law_batch_matches_sequence(
    table: Table,
    events: Seq<EventView>,
    inserted: Set<Seq<char>>,
    existing: Table,
)
    requires
        forall|id: Seq<char>| #[trigger]
            inserted.contains(id) <==> !table.contains_key(id) && rows_by_id(
                firsts(events),
            ).contains_key(id),
        forall|i: int|
            0 <= i < events.len() && table.contains_key((#[trigger] events[i]).event_id)
                ==> existing.contains_key(events[i].event_id) && same_content(
                existing[events[i].event_id],
                table[events[i].event_id],
            ),
    ensures
        decided(events, inserted, existing),
        Seq::new(events.len(), |i: int| batch_outcome(events, inserted, existing, i)) == outcomes(
            table,
            events,
        ),
{
    assert forall|i: int| 0 <= i < events.len() implies id_decided(
        (#[trigger] events[i]).event_id,
        inserted,
        existing,
    ) && batch_outcome(events, inserted, existing, i) == outcomes(table, events)[i] by {
        lemma_first_rows(events, events[i].event_id);
        assert(events[i].event_id == events[i].event_id);
        law_outcome_of_each(table, events, i);
        lemma_first_index(events, i);
    }
    assert(Seq::new(events.len(), |i: int| batch_outcome(events, inserted, existing, i))
        =~= outcomes(table, events));
}

} // verus!
