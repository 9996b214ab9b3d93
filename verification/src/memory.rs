//! A storage that keeps its events in memory.

use crate::domain::{Event, EventView};
use crate::json::{json_key, json_text};
use crate::storage::{
    event_views, first_index, is_first, law_outcome_from_the_events, law_read_after_write,
    law_table_after_batch, lemma_first_index, lemma_rows_by_id, outcomes, rows_by_id,
    same_event, store_all, EventOutcome, StorageError, Table,
};
use vstd::prelude::*;

verus! {

/// Stored events in the order in which they were stored, at most one for each id.
pub struct TestStorage {
    events: Vec<Event>,
}

impl View for TestStorage {
    type V = Seq<EventView>;

    closed spec fn view(&self) -> Seq<EventView> {
        event_views(self.events@)
    }
}

/// Adds `event` at the end unless its id is stored.
pub open spec fn add_new(stored: Seq<EventView>, event: EventView) -> Seq<EventView> {
    if rows_by_id(stored).contains_key(event.event_id) {
        stored
    } else {
        stored.push(event)
    }
}

/// Adds those of `events` whose ids are not stored, one after the other.
pub open spec fn add_all_new(stored: Seq<EventView>, events: Seq<EventView>) -> Seq<EventView>
    decreases events.len(),
{
    if events.len() == 0 {
        stored
    } else {
        add_new(add_all_new(stored, events.drop_last()), events.last())
    }
}

/// Whether no two events share an id.
pub open spec fn distinct_ids(stored: Seq<EventView>) -> bool {
    forall|i: int, j: int|
        0 <= i < j < stored.len() ==> (#[trigger] stored[i]).event_id != (
        #[trigger] stored[j]).event_id
}

fn position(events: &Vec<Event>, event_id: &str) -> (position: Option<usize>)
    ensures
        match position {
            Some(k) => k < events@.len() && events@[k as int]@.event_id == event_id@,
            None => !rows_by_id(event_views(events@)).contains_key(event_id@),
        },
{
    let wanted = event_id.to_owned();
    let ghost views = event_views(events@);
    let mut k: usize = 0;
    while k < events.len()
        invariant
            wanted@ == event_id@,
            views == event_views(events@),
            k <= events@.len(),
            forall|j: int| 0 <= j < k ==> (#[trigger] views[j]).event_id != event_id@,
        decreases events.len() - k,
    {
        if events[k].event_id == wanted {
            return Some(k);
        }
        k += 1;
    }
    proof {
        lemma_rows_by_id(views, event_id@);
    }
    None
}

impl TestStorage {
    /// At most one event is stored for each id.
    #[verifier::type_invariant]
    pub open spec fn wf(&self) -> bool {
        distinct_ids(self@)
    }

    /// The stored events by their ids.
    pub open spec fn table(&self) -> Table {
        rows_by_id(self@)
    }

    /// The stored events, oldest first.
    pub fn events(&self) -> (events: &Vec<Event>)
        ensures
            self.wf(),
            event_views(events@) == self@,
    {
        proof {
            use_type_invariant(self);
        }
        &self.events
    }

    /// Stores those of `events` whose ids are new, and gives the outcome of each.
    pub fn persist(&mut self, events: &[Event]) -> (result: Result<
        Vec<EventOutcome>,
        StorageError,
    >)
        ensures
            final(self).wf(),
            final(self)@ == add_all_new(old(self)@, event_views(events@)),
            final(self).table() == store_all(old(self).table(), event_views(events@)),
            result is Ok,
            result->Ok_0@ == outcomes(old(self).table(), event_views(events@)),
    {
        proof {
            use_type_invariant(&*self);
        }
        let ghost before_all = self@;
        let ghost start = self.table();
        let ghost views = event_views(events@);
        let mut stored: Vec<Event> = Vec::new();
        assert(event_views(stored@) =~= Seq::empty());
        std::mem::swap(&mut self.events, &mut stored);
        let mut result: Vec<EventOutcome> = Vec::with_capacity(events.len());
        let mut index: usize = 0;
        while index < events.len()
            invariant
                index <= events@.len(),
                views == event_views(events@),
                start == rows_by_id(before_all),
                distinct_ids(event_views(stored@)),
                event_views(stored@) == add_all_new(before_all, views.take(index as int)),
                rows_by_id(event_views(stored@)) == store_all(start, views.take(index as int)),
                result@ == outcomes(start, views).take(index as int),
            decreases events.len() - index,
        {
            let event = &events[index];
            let ghost before = event_views(stored@);
            let ghost now = views.take(index + 1);
            assert(now.drop_last() =~= views.take(index as int));
            assert(now.last() == event@);
            let outcome = match position(&stored, event.event_id.as_str()) {
                None => {
                    let copy = event.clone();
                    stored.push(copy);
                    proof {
                        let after = event_views(stored@);
                        assert(after =~= before.push(event@));
                        assert(after.drop_last() =~= before);
                        assert forall|i: int, j: int| 0 <= i < j < after.len() implies (
                        #[trigger] after[i]).event_id != (#[trigger] after[j]).event_id by {
                            lemma_rows_by_id(before, event@.event_id);
                            if j == before.len() {
                                assert(before[i].event_id != event@.event_id);
                            }
                        }
                    }
                    EventOutcome::Inserted
                },
                Some(k) => {
                    proof {
                        lemma_distinct_rows(before, k as int);
                    }
                    if same_event(&stored[k], event) {
                        EventOutcome::Duplicate
                    } else {
                        EventOutcome::Conflict
                    }
                },
            };
            result.push(outcome);
            assert(result@ =~= outcomes(start, views).take(index + 1));
            index += 1;
        }
        assert(views.take(index as int) =~= views);
        assert(outcomes(start, views).take(index as int) =~= outcomes(start, views));
        self.events = stored;
        Ok(result)
    }

    /// Gives a copy of the event that is stored under `event_id`.
    pub fn get_by_id(&self, event_id: &str) -> (result: Result<Option<Event>, StorageError>)
        ensures
            match result {
                Ok(Some(event)) => self.table().contains_key(event_id@) && event@
                    == self.table()[event_id@],
                Ok(None) => !self.table().contains_key(event_id@),
                Err(_) => false,
            },
    {
        proof {
            use_type_invariant(self);
        }
        match position(&self.events, event_id) {
            Some(k) => {
                proof {
                    lemma_distinct_rows(self@, k as int);
                }
                Ok(Some(self.events[k].clone()))
            },
            None => Ok(None),
        }
    }
}

impl Default for TestStorage {
    fn default() -> (storage: Self)
        ensures
            storage.wf(),
            storage@ == Seq::<EventView>::empty(),
    {
        let events: Vec<Event> = Vec::new();
        assert(event_views(events@) =~= Seq::<EventView>::empty());
        TestStorage { events }
    }
}

proof fn lemma_distinct_rows(rows: Seq<EventView>, k: int)
    requires
        distinct_ids(rows),
        0 <= k < rows.len(),
    ensures
        rows_by_id(rows).contains_key(rows[k].event_id),
        rows_by_id(rows)[rows[k].event_id] == rows[k],
    decreases rows.len(),
{
    let rest = rows.drop_last();
    if k < rest.len() {
        lemma_distinct_rows(rest, k);
        assert(rest[k].event_id != rows[rows.len() - 1].event_id);
    }
}

/// A new storage holds nothing.
pub proof fn law_new_storage_is_empty(storage: TestStorage, events: &Vec<Event>)
    requires
        call_ensures(<TestStorage as Default>::default, (), storage),
        call_ensures(TestStorage::events, (&storage,), events),
    ensures
        events@.len() == 0,
{
    assert(event_views(events@).len() == events@.len());
}

/// The stored events are given as they are, each with every field and in the order of the records.
pub proof fn law_events_are_the_records(storage: &TestStorage, events: &Vec<Event>, k: int)
    requires
        call_ensures(TestStorage::events, (storage,), events),
        0 <= k < storage@.len(),
    ensures
        events@.len() == storage@.len(),
        events@[k].event_id@ == storage@[k].event_id,
        events@[k].tenant_id@ == storage@[k].tenant_id,
        events@[k].event_type@ == storage@[k].event_type,
        events@[k].event_timestamp == storage@[k].event_timestamp,
        json_text(events@[k].payload) == storage@[k].payload.text,
        json_key(events@[k].payload) == storage@[k].payload.key,
{
    assert(event_views(events@).len() == events@.len());
    assert(event_views(events@)[k] == events@[k]@);
}

/// A read gives the record of the id that is asked for, with every field, and nothing exactly if no
/// record has that id.
pub proof fn law_read_gives_the_record(
    storage: &TestStorage,
    event_id: &str,
    result: Result<Option<Event>, StorageError>,
)
    requires
        call_ensures(TestStorage::get_by_id, (storage, event_id), result),
    ensures
        match result {
            Ok(Some(event)) => event.event_id@ == event_id@ && exists|k: int|
                {
                    &&& 0 <= k < storage@.len()
                    &&& (#[trigger] storage@[k]).event_id == event_id@
                    &&& event.tenant_id@ == storage@[k].tenant_id
                    &&& event.event_type@ == storage@[k].event_type
                    &&& event.event_timestamp == storage@[k].event_timestamp
                    &&& json_text(event.payload) == storage@[k].payload.text
                    &&& json_key(event.payload) == storage@[k].payload.key
                },
            Ok(None) => forall|k: int|
                0 <= k < storage@.len() ==> (#[trigger] storage@[k]).event_id != event_id@,
            Err(_) => false,
        },
{
    lemma_rows_by_id(storage@, event_id@);
    if storage.table().contains_key(event_id@) {
        let k = lemma_record_source(storage@, event_id@);
        assert(storage@[k].event_id == event_id@);
    }
}

proof fn lemma_record_source(rows: Seq<EventView>, id: Seq<char>) -> (k: int)
    requires
        rows_by_id(rows).contains_key(id),
    ensures
        0 <= k < rows.len(),
        rows[k].event_id == id,
        rows_by_id(rows)[id] == rows[k],
    decreases rows.len(),
{
    if rows.last().event_id == id {
        rows.len() - 1
    } else {
        lemma_record_source(rows.drop_last(), id)
    }
}

proof fn lemma_add_all_new_keeps(stored: Seq<EventView>, events: Seq<EventView>)
    ensures
        add_all_new(stored, events).len() >= stored.len(),
        add_all_new(stored, events).take(stored.len() as int) == stored,
        rows_by_id(add_all_new(stored, events)) == store_all(rows_by_id(stored), events),
    decreases events.len(),
{
    if events.len() > 0 {
        let before = add_all_new(stored, events.drop_last());
        lemma_add_all_new_keeps(stored, events.drop_last());
        assert(before.push(events.last()).drop_last() =~= before);
        assert(before.push(events.last()).take(stored.len() as int) =~= before.take(
            stored.len() as int,
        ));
    } else {
        assert(stored.take(stored.len() as int) =~= stored);
    }
}

/// Storing a batch keeps every record, as it was and where it was; it adds records behind them, one
/// for each id that had none; and every event has an outcome.
pub proof fn law_batch_adds_records(
    storage: &mut TestStorage,
    events: &[Event],
    result: Result<Vec<EventOutcome>, StorageError>,
    i: int,
)
    requires
        call_ensures(TestStorage::persist, (storage, events), result),
    ensures
        result matches Ok(given) && given@.len() == events@.len(),
        final(storage)@.len() >= old(storage)@.len(),
        forall|k: int|
            0 <= k < old(storage)@.len() ==> #[trigger] final(storage)@[k] == old(storage)@[k],
        0 <= i < events@.len() ==> exists|k: int|
            0 <= k < final(storage)@.len() && (#[trigger] final(storage)@[k]).event_id
                == events@[i].event_id@,
        forall|k: int, l: int|
            0 <= k < l < final(storage)@.len() ==> (#[trigger] final(storage)@[k]).event_id != (
            #[trigger] final(storage)@[l]).event_id,
{
    let views = event_views(events@);
    let before = old(storage)@;
    let after = final(storage)@;
    let id = events@[i].event_id@;
    lemma_add_all_new_keeps(before, views);
    assert forall|k: int| 0 <= k < before.len() implies #[trigger] after[k] == before[k] by {
        assert(after.take(before.len() as int)[k] == before[k]);
    }
    if 0 <= i < events@.len() {
        assert(views[i].event_id == id);
        law_table_after_batch(rows_by_id(before), views, id);
        lemma_rows_by_id(after, id);
    }
}

/// Every record that a batch adds is a whole event of the batch: the first with its id, of which
/// there was no record.
pub proof fn law_added_record_is_an_event(
    storage: &mut TestStorage,
    events: &[Event],
    result: Result<Vec<EventOutcome>, StorageError>,
    k: int,
)
    requires
        call_ensures(TestStorage::persist, (storage, events), result),
        old(storage)@.len() <= k < final(storage)@.len(),
    ensures
        exists|i: int|
            {
                let record = final(storage)@[k];
                &&& 0 <= i < events@.len()
                &&& record.event_id == (#[trigger] events@[i]).event_id@
                &&& record.tenant_id == events@[i].tenant_id@
                &&& record.event_type == events@[i].event_type@
                &&& record.event_timestamp == events@[i].event_timestamp
                &&& record.payload.text == json_text(events@[i].payload)
                &&& record.payload.key == json_key(events@[i].payload)
                &&& forall|j: int|
                    0 <= j < i ==> (#[trigger] events@[j]).event_id@ != record.event_id
            },
        forall|l: int|
            0 <= l < old(storage)@.len() ==> (#[trigger] old(storage)@[l]).event_id
                != final(storage)@[k].event_id,
{
    let views = event_views(events@);
    let before = old(storage)@;
    let after = final(storage)@;
    let id = after[k].event_id;
    lemma_add_all_new_keeps(before, views);
    assert forall|l: int| 0 <= l < before.len() implies (#[trigger] before[l]).event_id != id by {
        assert(after.take(before.len() as int)[l] == before[l]);
        assert(after[l].event_id != after[k].event_id);
    }
    lemma_rows_by_id(before, id);
    lemma_distinct_rows(after, k);
    law_table_after_batch(rows_by_id(before), views, id);
    let i = choose|i: int|
        {
            &&& 0 <= i < views.len()
            &&& (#[trigger] views[i]).event_id == id
            &&& forall|j: int| 0 <= j < i ==> (#[trigger] views[j]).event_id != id
            &&& rows_by_id(after)[id] == views[i]
        };
    assert(views[i] == events@[i]@);
    assert forall|j: int| 0 <= j < i implies (#[trigger] events@[j]).event_id@ != id by {
        assert(views[j].event_id != id);
    }
}

/// The outcome of an event tells how it stands to the record of its id (`k`) once the batch is
/// stored: a conflict is an event that differs from it in some field, an inserted event is the
/// first of a new record, and any other is a duplicate.
pub proof fn law_outcome_tells_how_event_and_record_stand(
    storage: &mut TestStorage,
    events: &[Event],
    given: Vec<EventOutcome>,
    i: int,
    k: int,
)
    requires
        call_ensures(TestStorage::persist, (storage, events), Ok(given)),
        0 <= i < events@.len(),
        0 <= k < final(storage)@.len(),
        final(storage)@[k].event_id == events@[i].event_id@,
    ensures
        ({
            let record = final(storage)@[k];
            let same = {
                &&& record.tenant_id == events@[i].tenant_id@
                &&& record.event_type == events@[i].event_type@
                &&& record.event_timestamp == events@[i].event_timestamp
                &&& record.payload.key == json_key(events@[i].payload)
            };
            let first = forall|j: int|
                0 <= j < i ==> (#[trigger] events@[j]).event_id@ != events@[i].event_id@;
            &&& given@[i] == EventOutcome::Conflict <==> !same
            &&& given@[i] == EventOutcome::Inserted <==> first && k >= old(storage)@.len()
            &&& given@[i] == EventOutcome::Duplicate <==> same && !(first && k >= old(
                storage,
            )@.len())
        }),
{
    let views = event_views(events@);
    let before = old(storage)@;
    let after = final(storage)@;
    let table = rows_by_id(before);
    let id = events@[i].event_id@;
    assert(views[i] == events@[i]@);
    lemma_add_all_new_keeps(before, views);
    lemma_distinct_rows(after, k);
    lemma_rows_by_id(before, id);
    law_table_after_batch(table, views, id);
    if k < before.len() {
        assert(after.take(before.len() as int)[k] == before[k]);
        assert(before[k].event_id == id);
    } else {
        assert forall|l: int| 0 <= l < before.len() implies (#[trigger] before[l]).event_id
            != id by {
            assert(after.take(before.len() as int)[l] == before[l]);
            assert(after[l].event_id != after[k].event_id);
        }
    }
    assert(table.contains_key(id) <==> k < before.len());
    lemma_first_index(views, i);
    let f = first_index(views, i);
    assert(views[f] == events@[f]@);
    assert forall|j: int| 0 <= j < f implies (#[trigger] views[j]).event_id != id by {
        assert(views[j].event_id != views[f].event_id);
    }
    law_outcome_from_the_events(table, views, i, f);
    if !table.contains_key(id) {
        let g = choose|g: int|
            {
                &&& 0 <= g < views.len()
                &&& (#[trigger] views[g]).event_id == id
                &&& forall|j: int| 0 <= j < g ==> (#[trigger] views[j]).event_id != id
                &&& store_all(table, views)[id] == views[g]
            };
        assert(g == f) by {
            if g < f {
                assert(views[g].event_id != id);
            } else if f < g {
                assert(views[f].event_id != id);
            }
        }
    }
    if f < i {
        assert(events@[f].event_id@ == id);
    } else {
        assert forall|j: int| 0 <= j < i implies (#[trigger] events@[j]).event_id@ != id by {
            assert(views[j].event_id != id);
        }
    }
}

proof fn lemma_new_records_in_order(
    stored: Seq<EventView>,
    events: Seq<EventView>,
    k: int,
    l: int,
    i: int,
    j: int,
)
    requires
        stored.len() <= k < l < add_all_new(stored, events).len(),
        distinct_ids(add_all_new(stored, events)),
        0 <= i < events.len(),
        0 <= j < events.len(),
        is_first(events, i),
        is_first(events, j),
        events[i].event_id == add_all_new(stored, events)[k].event_id,
        events[j].event_id == add_all_new(stored, events)[l].event_id,
    ensures
        i < j,
    decreases events.len(),
{
    let rest = events.drop_last();
    let last = events.len() - 1;
    let before = add_all_new(stored, rest);
    let after = add_all_new(stored, events);
    assert(after[k].event_id != after[l].event_id);
    if l < before.len() {
        assert(distinct_ids(before)) by {
            assert forall|a: int, b: int| 0 <= a < b < before.len() implies (
            #[trigger] before[a]).event_id != (#[trigger] before[b]).event_id by {
                assert(after[a].event_id != after[b].event_id);
            }
        }
        lemma_rows_by_id(before, after[l].event_id);
        lemma_rows_by_id(before, after[k].event_id);
        lemma_rows_by_id(stored, after[l].event_id);
        lemma_rows_by_id(stored, after[k].event_id);
        lemma_add_all_new_keeps(stored, rest);
        assert forall|m: int| 0 <= m < stored.len() implies (#[trigger] stored[m]).event_id
            != after[l].event_id && stored[m].event_id != after[k].event_id by {
            assert(before.take(stored.len() as int)[m] == stored[m]);
            assert(after[m].event_id != after[l].event_id);
            assert(after[m].event_id != after[k].event_id);
        }
        assert(before[l].event_id == after[l].event_id);
        assert(before[k].event_id == after[k].event_id);
        law_table_after_batch(rows_by_id(stored), rest, after[l].event_id);
        law_table_after_batch(rows_by_id(stored), rest, after[k].event_id);
        let p = choose|p: int| 0 <= p < rest.len() && (#[trigger] rest[p]).event_id
            == after[l].event_id;
        let q = choose|q: int| 0 <= q < rest.len() && (#[trigger] rest[q]).event_id
            == after[k].event_id;
        if j == last {
            assert(events[p].event_id != events[j].event_id);
        }
        if i == last {
            assert(events[q].event_id != events[i].event_id);
        }
        assert forall|m: int| 0 <= m < j implies (#[trigger] rest[m]).event_id
            != rest[j].event_id by {
            assert(events[m].event_id != events[j].event_id);
        }
        assert forall|m: int| 0 <= m < i implies (#[trigger] rest[m]).event_id
            != rest[i].event_id by {
            assert(events[m].event_id != events[i].event_id);
        }
        lemma_new_records_in_order(stored, rest, k, l, i, j);
    } else {
        let id = events.last().event_id;
        if j < last {
            lemma_add_all_new_keeps(stored, rest);
            law_table_after_batch(rows_by_id(stored), rest, id);
            assert(rest[j].event_id == id);
        }
    }
}

/// New records stand in the order in which their ids first occur in the batch.
pub proof fn law_records_are_added_in_order(
    storage: &mut TestStorage,
    events: &[Event],
    result: Result<Vec<EventOutcome>, StorageError>,
    i: int,
    j: int,
    k: int,
    l: int,
)
    requires
        call_ensures(TestStorage::persist, (storage, events), result),
        old(storage)@.len() <= k < l < final(storage)@.len(),
        0 <= i < events@.len(),
        0 <= j < events@.len(),
        events@[i].event_id@ == final(storage)@[k].event_id,
        events@[j].event_id@ == final(storage)@[l].event_id,
        forall|m: int| 0 <= m < i ==> (#[trigger] events@[m]).event_id@ != events@[i].event_id@,
        forall|m: int| 0 <= m < j ==> (#[trigger] events@[m]).event_id@ != events@[j].event_id@,
    ensures
        i < j,
{
    let views = event_views(events@);
    assert forall|m: int| 0 <= m < views.len() implies (#[trigger] views[m]).event_id
        == events@[m].event_id@ by {}
    assert(views[i].event_id == events@[i].event_id@);
    assert(views[j].event_id == events@[j].event_id@);
    assert(is_first(views, i));
    assert(is_first(views, j));
    lemma_new_records_in_order(old(storage)@, views, k, l, i, j);
}

/// What was stored is read: after a batch, a read of the id of an event that was inserted or found
/// to be a duplicate gives an event with that id and the same tenant, type, timestamp and payload.
pub proof fn law_read_after_persist(
    storage: &mut TestStorage,
    events: &[Event],
    given: Vec<EventOutcome>,
    i: int,
    after: &TestStorage,
    event_id: &str,
    found: Result<Option<Event>, StorageError>,
)
    requires
        call_ensures(TestStorage::persist, (storage, events), Ok(given)),
        0 <= i < events@.len(),
        given@[i] != EventOutcome::Conflict,
        *after == *final(storage),
        event_id@ == events@[i].event_id@,
        call_ensures(TestStorage::get_by_id, (after, event_id), found),
    ensures
        found matches Ok(Some(event)) && {
            &&& event.event_id@ == events@[i].event_id@
            &&& event.tenant_id@ == events@[i].tenant_id@
            &&& event.event_type@ == events@[i].event_type@
            &&& event.event_timestamp == events@[i].event_timestamp
            &&& json_key(event.payload) == json_key(events@[i].payload)
        },
{
    let views = event_views(events@);
    assert(views[i] == events@[i]@);
    law_read_after_write(old(storage).table(), views, i);
    lemma_rows_by_id(after@, event_id@);
}

} // verus!
