//! What storing a batch at once comes to, told by the events, the columns that are handed to the
//! database and the rows that it gives back.

use crate::domain::{Event, EventView};
use crate::json::{json_key, json_text, json_view};
use crate::postgres::{
    classify, decided, event_from_row, event_outcome, first_undecided, id_decided, id_set,
    law_batch_matches_sequence, law_insert_stores_the_batch, law_plan_ids_are_distinct,
    timestamp_from_column, timestamp_to_column, InsertPlan,
};
use crate::storage::{
    event_views, first_index, firsts, is_first, is_first_of, lemma_first_index, lemma_rows_by_id,
    outcomes, rows_by_id, same_content, store_all, EventOutcome, Table,
};
use serde_json::Value;
use vstd::prelude::*;

verus! {

/// A timestamp comes back from its column as it was, and the column holds the number itself where
/// it can.
pub proof fn law_timestamp_comes_back(timestamp: u64, column: i64, back: u64)
    requires
        call_ensures(timestamp_to_column, (timestamp,), column),
        call_ensures(timestamp_from_column, (column,), back),
    ensures
        back == timestamp,
        timestamp <= i64::MAX ==> column == timestamp,
        timestamp > i64::MAX ==> column == timestamp - 0x1_0000_0000_0000_0000,
{
}

/// An event that is made of the columns of a row has every one of them, and an unsigned timestamp
/// with the bits of its column.
pub proof fn law_row_keeps_every_column(
    event_id: String,
    tenant_id: String,
    event_type: String,
    column: i64,
    payload: Value,
    event: Event,
)
    requires
        call_ensures(event_from_row, (event_id, tenant_id, event_type, column, payload), event),
    ensures
        event.event_id@ == event_id@,
        event.tenant_id@ == tenant_id@,
        event.event_type@ == event_type@,
        column >= 0 ==> event.event_timestamp == column,
        column < 0 ==> event.event_timestamp == column + 0x1_0000_0000_0000_0000,
        event.payload == payload,
{
}

proof fn lemma_firsts_source(events: Seq<EventView>, k: int) -> (i: int)
    requires
        0 <= k < firsts(events).len(),
    ensures
        0 <= i < events.len(),
        is_first(events, i),
        firsts(events)[k] == events[i],
    decreases events.len(),
{
    let rest = events.drop_last();
    let last = events.len() - 1;
    if is_first(events, last) && k == firsts(rest).len() {
        last
    } else {
        let i = lemma_firsts_source(rest, k);
        assert forall|j: int| 0 <= j < i implies (#[trigger] events[j]).event_id
            != events[i].event_id by {
            assert(rest[j].event_id != rest[i].event_id);
        }
        i
    }
}

proof fn lemma_firsts_cover(events: Seq<EventView>, i: int) -> (k: int)
    requires
        0 <= i < events.len(),
        is_first(events, i),
    ensures
        0 <= k < firsts(events).len(),
        firsts(events)[k] == events[i],
    decreases events.len(),
{
    let rest = events.drop_last();
    let last = events.len() - 1;
    if i == last {
        firsts(rest).len() as int
    } else {
        assert forall|j: int| 0 <= j < i implies (#[trigger] rest[j]).event_id
            != rest[i].event_id by {
            assert(events[j].event_id != events[i].event_id);
        }
        lemma_firsts_cover(rest, i)
    }
}

/// Every row of a plan reads back as an event of the batch, in every field: as the first event with
/// its id.
pub proof fn law_plan_row_reads_back<'a>(
    events: &'a [Event],
    plan: InsertPlan<'a>,
    k: int,
    columns: (String, String, String, i64, Value),
    row: Event,
)
    requires
        call_ensures(InsertPlan::<'a>::new, (events,), Some(plan)),
        0 <= k < plan.event_ids@.len(),
        columns.0@ == plan.event_ids@[k]@,
        columns.1@ == plan.tenant_ids@[k]@,
        columns.2@ == plan.event_types@[k]@,
        columns.3 == plan.event_timestamps@[k],
        columns.4 == *plan.payloads@[k],
        call_ensures(event_from_row, columns, row),
    ensures
        exists|i: int|
            {
                &&& 0 <= i < events@.len()
                &&& forall|j: int|
                    0 <= j < i ==> (#[trigger] events@[j]).event_id@ != events@[i].event_id@
                &&& row.event_id@ == (#[trigger] events@[i]).event_id@
                &&& row.tenant_id@ == events@[i].tenant_id@
                &&& row.event_type@ == events@[i].event_type@
                &&& row.event_timestamp == events@[i].event_timestamp
                &&& json_text(row.payload) == json_text(events@[i].payload)
                &&& json_key(row.payload) == json_key(events@[i].payload)
            },
{
    let views = event_views(events@);
    let i = lemma_firsts_source(views, k);
    assert(views[i] == events@[i]@);
    assert(json_view(row.payload) == events@[i]@.payload);
    assert forall|j: int| 0 <= j < i implies (#[trigger] events@[j]).event_id@
        != events@[i].event_id@ by {
        assert(views[j].event_id != views[i].event_id);
    }
}

/// A plan has one row for each id of the batch: none is missing, none occurs twice, and the columns
/// are equally long. Only an empty batch has no plan.
pub proof fn law_plan_has_one_row_per_id<'a>(
    events: &'a [Event],
    plan: Option<InsertPlan<'a>>,
    i: int,
)
    requires
        call_ensures(InsertPlan::<'a>::new, (events,), plan),
    ensures
        events@.len() == 0 <==> plan is None,
        0 <= i < events@.len() ==> (plan matches Some(plan) && {
            &&& exists|k: int|
                0 <= k < plan.event_ids@.len() && (#[trigger] plan.event_ids@[k])@
                    == events@[i].event_id@
            &&& forall|k: int, l: int|
                0 <= k < l < plan.event_ids@.len() ==> (#[trigger] plan.event_ids@[k])@ != (
                #[trigger] plan.event_ids@[l])@
            &&& plan.tenant_ids@.len() == plan.event_ids@.len()
            &&& plan.event_types@.len() == plan.event_ids@.len()
            &&& plan.event_timestamps@.len() == plan.event_ids@.len()
            &&& plan.payloads@.len() == plan.event_ids@.len()
        }),
{
    if 0 <= i < events@.len() {
        let views = event_views(events@);
        let rows = firsts(views);
        lemma_first_index(views, i);
        let f = first_index(views, i);
        let k = lemma_firsts_cover(views, f);
        law_plan_ids_are_distinct(views);
        let plan = plan->0;
        assert(plan.event_ids@[k]@ == events@[i].event_id@) by {
            assert(views[f] == events@[f]@ && views[i] == events@[i]@);
        }
        assert forall|k: int, l: int| 0 <= k < l < plan.event_ids@.len() implies (
        #[trigger] plan.event_ids@[k])@ != (#[trigger] plan.event_ids@[l])@ by {
            assert(rows[k].event_id != rows[l].event_id);
        }
    }
}

/// Whether `row` is what stands in row `k` of a plan.
pub open spec fn is_row<'a>(plan: InsertPlan<'a>, k: int, row: EventView) -> bool {
    &&& row.event_id == plan.event_ids@[k]@
    &&& row.tenant_id == plan.tenant_ids@[k]@
    &&& row.event_type == plan.event_types@[k]@
    &&& (row.event_timestamp == plan.event_timestamps@[k] || row.event_timestamp
        == plan.event_timestamps@[k] + 0x1_0000_0000_0000_0000)
    &&& row.payload.text == json_text(*plan.payloads@[k])
    &&& row.payload.key == json_key(*plan.payloads@[k])
}

/// Inserting the rows of a plan into a table, those whose ids have no record, leaves the table that
/// storing the events of the batch one after the other does.
pub proof fn law_inserting_the_plan_stores_the_batch<'a>(
    events: &'a [Event],
    plan: InsertPlan<'a>,
    rows: Seq<EventView>,
    table: Table,
    after: Table,
)
    requires
        call_ensures(InsertPlan::<'a>::new, (events,), Some(plan)),
        rows.len() == plan.event_ids@.len(),
        forall|k: int| 0 <= k < rows.len() ==> is_row(plan, k, #[trigger] rows[k]),
        forall|id: Seq<char>| #[trigger]
            after.contains_key(id) <==> table.contains_key(id) || exists|k: int|
                0 <= k < rows.len() && (#[trigger] rows[k]).event_id == id,
        forall|id: Seq<char>| #[trigger] table.contains_key(id) ==> after[id] == table[id],
        forall|k: int|
            0 <= k < rows.len() && !table.contains_key((#[trigger] rows[k]).event_id)
                ==> after[rows[k].event_id] == rows[k],
    ensures
        after == store_all(table, event_views(events@)),
{
    let views = event_views(events@);
    assert forall|k: int| 0 <= k < rows.len() implies rows[k] == firsts(views)[k] by {
        assert(is_row(plan, k, rows[k]));
        assert(plan.event_ids@[k]@ == firsts(views)[k].event_id);
        assert(rows[k] =~= firsts(views)[k]);
    }
    assert(rows =~= firsts(views));
    law_insert_stores_the_batch(table, views);
    let inserted = rows_by_id(rows).union_prefer_right(table);
    assert forall|id: Seq<char>| after.contains_key(id) == inserted.contains_key(id) by {
        lemma_rows_by_id(rows, id);
    }
    assert forall|id: Seq<char>| #[trigger] after.contains_key(id) implies after[id]
        == inserted[id] by {
        if !table.contains_key(id) {
            lemma_rows_by_id(rows, id);
            let k = choose|k: int| 0 <= k < rows.len() && (#[trigger] rows[k]).event_id == id;
            law_plan_ids_are_distinct(views);
            lemma_last_row(rows, k);
        }
    }
    assert(after =~= inserted);
}

proof fn lemma_last_row(rows: Seq<EventView>, r: int)
    requires
        0 <= r < rows.len(),
        forall|q: int| r < q < rows.len() ==> (#[trigger] rows[q]).event_id != rows[r].event_id,
    ensures
        rows_by_id(rows).contains_key(rows[r].event_id),
        rows_by_id(rows)[rows[r].event_id] == rows[r],
    decreases rows.len(),
{
    let rest = rows.drop_last();
    if r < rest.len() {
        assert(rows[rows.len() - 1].event_id != rows[r].event_id);
        assert forall|q: int| r < q < rest.len() implies (#[trigger] rest[q]).event_id
            != rest[r].event_id by {
            assert(rows[q].event_id != rows[r].event_id);
        }
        lemma_last_row(rest, r);
    }
}

proof fn lemma_id_set(ids: Seq<String>, id: Seq<char>)
    ensures
        id_set(ids).contains(id) <==> exists|j: int| 0 <= j < ids.len() && (#[trigger] ids[j])@
            == id,
{
    let views = ids.map_values(|id: String| id@);
    if id_set(ids).contains(id) {
        let j = choose|j: int| 0 <= j < views.len() && views[j] == id;
        assert(ids[j]@ == id);
    }
    if exists|j: int| 0 <= j < ids.len() && (#[trigger] ids[j])@ == id {
        let j = choose|j: int| 0 <= j < ids.len() && (#[trigger] ids[j])@ == id;
        assert(views[j] == id);
        assert(views.contains(id));
    }
}

/// The look-up asks for the ids of the plan that were not inserted: for each of them, for no other,
/// and for none twice if the plan names none twice.
pub proof fn law_look_up_asks_for_the_rest<'a>(
    plan: &InsertPlan<'a>,
    inserted_ids: &[String],
    ids: Vec<&'a String>,
    id: Seq<char>,
)
    requires
        call_ensures(InsertPlan::<'a>::ids_to_look_up, (plan, inserted_ids), ids),
    ensures
        (exists|k: int| 0 <= k < ids@.len() && (#[trigger] ids@[k])@ == id) <==> {
            &&& exists|k: int|
                0 <= k < plan.event_ids@.len() && (#[trigger] plan.event_ids@[k])@ == id
            &&& forall|j: int| 0 <= j < inserted_ids@.len() ==> (#[trigger] inserted_ids@[j])@ != id
        },
        (forall|k: int, l: int|
            0 <= k < l < plan.event_ids@.len() ==> (#[trigger] plan.event_ids@[k])@ != (
            #[trigger] plan.event_ids@[l])@) ==> forall|k: int, l: int|
            0 <= k < l < ids@.len() ==> (#[trigger] ids@[k])@ != (#[trigger] ids@[l])@,
{
    let inserted = id_set(inserted_ids@);
    let absent = |id: &'a String| !inserted.contains(id@);
    let all = plan.event_ids@;
    lemma_id_set(inserted_ids@, id);
    assert(ids@ == all.filter(absent));
    if exists|k: int| 0 <= k < ids@.len() && (#[trigger] ids@[k])@ == id {
        let k = choose|k: int| 0 <= k < ids@.len() && (#[trigger] ids@[k])@ == id;
        assert(absent(ids@[k]));
        assert(ids@.contains(ids@[k]));
        all.lemma_filter_contains_rev(absent, ids@[k]);
        let r = all.index_of(ids@[k]);
        assert(all[r]@ == id);
    }
    if (exists|k: int| 0 <= k < all.len() && (#[trigger] all[k])@ == id) && !inserted.contains(
        id,
    ) {
        let k = choose|k: int| 0 <= k < all.len() && (#[trigger] all[k])@ == id;
        assert(all.filter(absent).contains(all[k]));
    }
    if forall|k: int, l: int|
        0 <= k < l < all.len() ==> (#[trigger] all[k])@ != (#[trigger] all[l])@ {
        lemma_filter_keeps_distinct(all, absent);
    }
}

proof fn lemma_filter_keeps_distinct<'a>(all: Seq<&'a String>, keep: spec_fn(&'a String) -> bool)
    requires
        forall|k: int, l: int|
            0 <= k < l < all.len() ==> (#[trigger] all[k])@ != (#[trigger] all[l])@,
    ensures
        forall|k: int, l: int|
            0 <= k < l < all.filter(keep).len() ==> (#[trigger] all.filter(keep)[k])@ != (
            #[trigger] all.filter(keep)[l])@,
    decreases all.len(),
{
    reveal(Seq::filter);
    if all.len() > 0 {
        let rest = all.drop_last();
        let kept = rest.filter(keep);
        lemma_filter_keeps_distinct(rest, keep);
        assert forall|k: int| 0 <= k < kept.len() implies (#[trigger] kept[k])@
            != all.last()@ by {
            assert(kept.contains(kept[k]));
            rest.lemma_filter_contains_rev(keep, kept[k]);
            let r = rest.index_of(kept[k]);
            assert(all[r]@ != all[all.len() - 1]@);
        }
    }
}

/// The outcome of each event, from what the database answered. The event is held against what is
/// stored under its id: the first event of the batch with that id if the id was inserted (`f`), the
/// row that was found otherwise (`r`). One field that differs makes a conflict; the event that was
/// itself inserted is reported so; any other is a duplicate.
pub proof fn law_classified_by_what_is_stored(
    events: &[Event],
    inserted_ids: &[String],
    existing: &[Event],
    result: Vec<EventOutcome>,
    i: int,
    f: int,
    r: int,
)
    requires
        call_ensures(classify, (events, inserted_ids, existing), result),
        0 <= f <= i < events@.len(),
        events@[f].event_id@ == events@[i].event_id@,
        forall|j: int| 0 <= j < f ==> (#[trigger] events@[j]).event_id@ != events@[i].event_id@,
        (exists|j: int|
            0 <= j < inserted_ids@.len() && (#[trigger] inserted_ids@[j])@
                == events@[i].event_id@) || {
            &&& 0 <= r < existing@.len()
            &&& existing@[r].event_id@ == events@[i].event_id@
            &&& forall|q: int|
                r < q < existing@.len() ==> (#[trigger] existing@[q]).event_id@
                    != events@[i].event_id@
        },
    ensures
        result@.len() == events@.len(),
        ({
            let event = events@[i];
            let inserted = exists|j: int|
                0 <= j < inserted_ids@.len() && (#[trigger] inserted_ids@[j])@
                    == event.event_id@;
            let stored = if inserted {
                events@[f]
            } else {
                existing@[r]
            };
            let same = {
                &&& stored.tenant_id@ == event.tenant_id@
                &&& stored.event_type@ == event.event_type@
                &&& stored.event_timestamp == event.event_timestamp
                &&& json_key(stored.payload) == json_key(event.payload)
            };
            &&& !same ==> result@[i] == EventOutcome::Conflict
            &&& same && inserted && f == i ==> result@[i] == EventOutcome::Inserted
            &&& same && !(inserted && f == i) ==> result@[i] == EventOutcome::Duplicate
        }),
{
    let views = event_views(events@);
    let rows = event_views(existing@);
    let id = events@[i].event_id@;
    assert(views[i] == events@[i]@ && views[f] == events@[f]@);
    assert forall|j: int| 0 <= j < f implies (#[trigger] views[j]).event_id
        != views[f].event_id by {
        assert(events@[j].event_id@ != id);
    }
    assert(is_first_of(views, f, i));
    lemma_first_index(views, i);
    lemma_id_set(inserted_ids@, id);
    if !id_set(inserted_ids@).contains(id) {
        assert(rows[r] == existing@[r]@);
        assert forall|q: int| r < q < rows.len() implies (#[trigger] rows[q]).event_id
            != rows[r].event_id by {
            assert(existing@[q].event_id@ != id);
        }
        lemma_last_row(rows, r);
    }
}

/// Every event of a batch has one outcome, and nothing else has.
pub proof fn law_classified_one_by_one(
    events: &[Event],
    inserted_ids: &[String],
    existing: &[Event],
    result: Vec<EventOutcome>,
)
    requires
        call_ensures(classify, (events, inserted_ids, existing), result),
    ensures
        result@.len() == events@.len(),
{
}

/// The answers of the database leave an event open exactly if its id was neither inserted nor
/// found. The first such event is given, and none only if there is none.
pub proof fn law_undecided_is_neither_inserted_nor_found(
    events: &[Event],
    inserted_ids: &[String],
    existing: &[Event],
    index: Option<usize>,
    i: int,
)
    requires
        call_ensures(first_undecided, (events, inserted_ids, existing), index),
    ensures
        index matches Some(k) ==> k < events@.len(),
        0 <= i < events@.len() ==> ({
            let open = {
                &&& forall|j: int|
                    0 <= j < inserted_ids@.len() ==> (#[trigger] inserted_ids@[j])@
                        != events@[i].event_id@
                &&& forall|r: int|
                    0 <= r < existing@.len() ==> (#[trigger] existing@[r]).event_id@
                        != events@[i].event_id@
            };
            &&& index is None ==> !open
            &&& index matches Some(k) ==> {
                &&& i == k ==> open
                &&& i < k ==> !open
            }
        }),
{
    let id = events@[i].event_id@;
    let rows = event_views(existing@);
    lemma_id_set(inserted_ids@, id);
    lemma_rows_by_id(rows, id);
    assert(0 <= i < events@.len() ==> event_views(events@)[i] == events@[i]@);
    assert(forall|r: int| 0 <= r < rows.len() ==> #[trigger] rows[r] == existing@[r]@);
    if rows_by_id(rows).contains_key(id) {
        let r = choose|r: int| 0 <= r < rows.len() && (#[trigger] rows[r]).event_id == id;
        assert(existing@[r].event_id@ == id);
    }
    if exists|r: int| 0 <= r < existing@.len() && (#[trigger] existing@[r]).event_id@ == id {
        let r = choose|r: int|
            0 <= r < existing@.len() && (#[trigger] existing@[r]).event_id@ == id;
        assert(rows[r].event_id == id);
    }
    assert(0 <= i < events@.len() && index is None ==> id_decided(
        event_views(events@)[i].event_id,
        id_set(inserted_ids@),
        rows_by_id(rows),
    ));
}

/// Storing a batch through the database, from the plan to the outcomes: as long as the database
/// inserts the ids of the plan that have no record, and gives back the records of the ids that it
/// is then asked for, every event has an outcome, and the one that it has when the events are
/// stored one after the other.
pub proof fn law_database_run_matches_sequence<'a>(
    table: Table,
    events: &'a [Event],
    plan: InsertPlan<'a>,
    inserted_ids: &[String],
    ids: Vec<&'a String>,
    existing: &[Event],
    result: Vec<EventOutcome>,
)
    requires
        call_ensures(InsertPlan::<'a>::new, (events,), Some(plan)),
        forall|j: int|
            0 <= j < inserted_ids@.len() ==> !table.contains_key((#[trigger] inserted_ids@[j])@)
                && exists|k: int|
                0 <= k < plan.event_ids@.len() && (#[trigger] plan.event_ids@[k])@
                    == inserted_ids@[j]@,
        forall|k: int|
            0 <= k < plan.event_ids@.len() && !table.contains_key((#[trigger] plan.event_ids@[k])@)
                ==> exists|j: int|
                0 <= j < inserted_ids@.len() && (#[trigger] inserted_ids@[j])@
                    == plan.event_ids@[k]@,
        call_ensures(InsertPlan::<'a>::ids_to_look_up, (&plan, inserted_ids), ids),
        forall|k: int|
            0 <= k < ids@.len() && table.contains_key((#[trigger] ids@[k])@) ==> exists|r: int|
                0 <= r < existing@.len() && (#[trigger] existing@[r]).event_id@ == ids@[k]@,
        forall|r: int|
            0 <= r < existing@.len() ==> table.contains_key(
                (#[trigger] existing@[r]).event_id@,
            ) && existing@[r]@ == table[existing@[r].event_id@],
        call_ensures(classify, (events, inserted_ids, existing), result),
    ensures
        decided(
            event_views(events@),
            id_set(inserted_ids@),
            rows_by_id(event_views(existing@)),
        ),
        result@ == outcomes(table, event_views(events@)),
{
    let views = event_views(events@);
    let inserted = id_set(inserted_ids@);
    let rows = event_views(existing@);
    let found = rows_by_id(rows);
    let planned = firsts(views);
    assert forall|id: Seq<char>| #[trigger] inserted.contains(id) <==> !table.contains_key(id)
        && rows_by_id(planned).contains_key(id) by {
        lemma_id_set(inserted_ids@, id);
        lemma_rows_by_id(planned, id);
        if inserted.contains(id) {
            let j = choose|j: int|
                0 <= j < inserted_ids@.len() && (#[trigger] inserted_ids@[j])@ == id;
            let k = choose|k: int|
                0 <= k < plan.event_ids@.len() && (#[trigger] plan.event_ids@[k])@
                    == inserted_ids@[j]@;
            assert(planned[k].event_id == id);
        }
        if rows_by_id(planned).contains_key(id) && !table.contains_key(id) {
            let k = choose|k: int| 0 <= k < planned.len() && (#[trigger] planned[k]).event_id
                == id;
            assert(plan.event_ids@[k]@ == id);
        }
    }
    assert forall|i: int|
        0 <= i < views.len() && table.contains_key(
            (#[trigger] views[i]).event_id,
        ) implies found.contains_key(views[i].event_id) && same_content(
        found[views[i].event_id],
        table[views[i].event_id],
    ) by {
        let id = views[i].event_id;
        assert(views[i] == events@[i]@);
        law_plan_has_one_row_per_id(events, Some(plan), i);
        law_look_up_asks_for_the_rest(&plan, inserted_ids, ids, id);
        lemma_id_set(inserted_ids@, id);
        assert(!inserted.contains(id));
        let k = choose|k: int| 0 <= k < ids@.len() && (#[trigger] ids@[k])@ == id;
        let r = choose|r: int|
            0 <= r < existing@.len() && (#[trigger] existing@[r]).event_id@ == ids@[k]@;
        assert(rows[r].event_id == id);
        lemma_rows_by_id(rows, id);
        let s = lemma_row_is_one(rows, id);
        assert(rows[s] == existing@[s]@);
    }
    law_batch_matches_sequence(table, views, inserted, found);
}

proof fn lemma_row_is_one(rows: Seq<EventView>, id: Seq<char>) -> (r: int)
    requires
        rows_by_id(rows).contains_key(id),
    ensures
        0 <= r < rows.len(),
        rows[r].event_id == id,
        rows_by_id(rows)[id] == rows[r],
    decreases rows.len(),
{
    if rows.last().event_id == id {
        rows.len() - 1
    } else {
        lemma_row_is_one(rows.drop_last(), id)
    }
}

/// Other content is a conflict whatever else holds, and only the first event of an inserted id is
/// inserted.
pub proof fn law_outcome_of_one(
    inserted: bool,
    first: bool,
    same: bool,
    outcome: EventOutcome,
)
    requires
        call_ensures(event_outcome, (inserted, first, same), outcome),
    ensures
        outcome == EventOutcome::Conflict <==> !same,
        outcome == EventOutcome::Inserted <==> same && inserted && first,
{
}

} // verus!
