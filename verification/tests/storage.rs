use rust_event_stream::domain::Event;
use rust_event_stream::memory::TestStorage;
use rust_event_stream::postgres::{
    classify, event_from_row, event_outcome, first_undecided, timestamp_from_column,
    timestamp_to_column, InsertPlan,
};
use rust_event_stream::storage::{same_event, EventOutcome, StorageError};
use serde_json::Value;
use std::collections::BTreeMap;

fn json(text: &str) -> Value {
    serde_json::from_str(text).unwrap()
}

fn mock_event(id: &str) -> Event {
    Event {
        event_id: id.to_string(),
        tenant_id: "tenant-123".to_string(),
        event_type: "user.signed_up".to_string(),
        event_timestamp: 1700000000,
        payload: json(r#"{"user_id": 42}"#),
    }
}

fn mock_event_user(id: &str, user_id: &str) -> Event {
    Event { payload: json(&format!(r#"{{"user_id": "{}"}}"#, user_id)), ..mock_event(id) }
}

/// A table that inserts new ids and answers by id, as a relational database does.
#[derive(Default)]
struct Relation {
    rows: BTreeMap<String, (String, String, i64, Value)>,
}

impl Relation {
    fn row(&self, id: &str) -> Option<Event> {
        let (tenant_id, event_type, timestamp, payload) = self.rows.get(id)?.clone();
        Some(event_from_row(id.to_string(), tenant_id, event_type, timestamp, payload))
    }

    fn persist(&mut self, events: &[Event]) -> Result<Vec<EventOutcome>, StorageError> {
        let plan = match InsertPlan::new(events) {
            Some(plan) => plan,
            None => return Ok(vec![]),
        };
        let mut inserted = Vec::new();
        for k in 0..plan.event_ids.len() {
            if !self.rows.contains_key(plan.event_ids[k]) {
                self.rows.insert(
                    plan.event_ids[k].clone(),
                    (
                        plan.tenant_ids[k].clone(),
                        plan.event_types[k].clone(),
                        plan.event_timestamps[k],
                        plan.payloads[k].clone(),
                    ),
                );
                inserted.push(plan.event_ids[k].clone());
            }
        }
        let existing: Vec<Event> = plan
            .ids_to_look_up(&inserted)
            .into_iter()
            .filter_map(|id| self.row(id))
            .collect();
        assert_eq!(first_undecided(events, &inserted, &existing), None);
        Ok(classify(events, &inserted, &existing))
    }

    fn get_by_id(&self, id: &str) -> Result<Option<Event>, StorageError> {
        Ok(self.row(id))
    }
}

#[test]
fn test_persist_batch_saves_multiple_events() {
    let mut storage = Relation::default();

    let empty_batch: Vec<Event> = vec![];
    let result = storage.persist(&empty_batch);
    assert!(result.is_ok());

    let event_1 = mock_event("evt_batch_1");
    let event_2 = mock_event("evt_batch_2");
    let event_3 = mock_event("evt_batch_3");
    let batch = vec![event_1.clone(), event_2.clone(), event_3.clone()];

    let persist_result = storage.persist(&batch);
    assert!(persist_result.is_ok());

    let saved_event_ids: Vec<&String> = storage.rows.keys().collect();
    assert_eq!(saved_event_ids.len(), 3);
    assert_eq!(saved_event_ids, vec!["evt_batch_1", "evt_batch_2", "evt_batch_3"]);

    let loaded_event = storage.get_by_id("evt_batch_2").unwrap();
    assert_eq!(loaded_event, Some(event_2));
}

#[test]
fn event_is_persisted() {
    let mut storage = Relation::default();
    let event = mock_event("evt_001");

    let result = storage.persist(&[event]);
    assert!(result.is_ok());

    let ids: Vec<&String> = storage
        .rows
        .iter()
        .filter(|(_, row)| row.0 == "tenant-123")
        .map(|(id, _)| id)
        .collect();
    assert_eq!(ids, vec!["evt_001"]);
}

#[test]
fn event_can_be_loaded_by_id() {
    let mut storage = Relation::default();
    let event = mock_event("evt_002");

    storage.persist(std::slice::from_ref(&event)).unwrap();

    let loaded = storage.get_by_id("evt_002").unwrap();
    assert_eq!(loaded, Some(event));
}

#[test]
fn unknown_id_returns_none() {
    let storage = Relation::default();
    let loaded = storage.get_by_id("non_existent_id").unwrap();
    assert!(loaded.is_none());
}

#[test]
fn same_event_retry_does_not_create_second_record() {
    let mut storage = Relation::default();

    let result = storage.persist(&[mock_event("evt_new")]);
    assert!(result.is_ok());

    let result = storage.persist(&[mock_event("evt_new")]);
    assert!(result.is_ok());
    assert_eq!(result.unwrap(), vec![EventOutcome::Duplicate]);

    assert_eq!(storage.rows.len(), 1);
}

#[test]
fn test_persist_conflict_duplicate_returns_error_and_does_not_modify() {
    let mut storage = Relation::default();

    let result = storage.persist(&[mock_event_user("evt_new_1", "first")]);
    assert!(result.is_ok());

    let result = storage.persist(&[mock_event_user("evt_new_1", "999")]).unwrap();
    assert_eq!(result, vec![EventOutcome::Conflict]);

    assert_eq!(storage.rows.len(), 1);
    let stored = storage.get_by_id("evt_new_1").unwrap().unwrap();
    assert_eq!(stored.payload, json(r#"{"user_id": "first"}"#));
}

#[test]
fn duplicate_inside_batch_is_handled() {
    let mut storage = Relation::default();

    let result = storage.persist(&[mock_event("evt_A"), mock_event("evt_A")]);
    assert!(result.is_ok());
    assert_eq!(result.unwrap(), vec![EventOutcome::Inserted, EventOutcome::Duplicate]);

    assert_eq!(storage.rows.len(), 1);
}

#[test]
fn mixed_batch_with_conflict() {
    let mut storage = Relation::default();

    let result = storage.persist(&[mock_event_user("A", "OLD")]);
    assert!(result.is_ok());
    assert_eq!(result.unwrap(), vec![EventOutcome::Inserted]);

    let result = storage
        .persist(&[
            mock_event_user("B", "NEW"),
            mock_event_user("A", "NEW"),
            mock_event_user("C", "NEW"),
        ])
        .unwrap();
    assert_eq!(
        result,
        vec![EventOutcome::Inserted, EventOutcome::Conflict, EventOutcome::Inserted]
    );

    assert_eq!(storage.rows.len(), 3);
    let stored_a = storage.get_by_id("A").unwrap().unwrap();
    assert_eq!(stored_a, mock_event_user("A", "OLD"));
    assert!(storage.get_by_id("B").unwrap().is_some());
    assert!(storage.get_by_id("C").unwrap().is_some());
}

#[test]
fn duplicate_does_not_fail_unrelated_valid_event() {
    let mut storage = Relation::default();

    let result = storage.persist(&[mock_event("evt_A")]).unwrap();
    assert_eq!(result, vec![EventOutcome::Inserted]);

    let result = storage.persist(&[mock_event("evt_B"), mock_event("evt_A"), mock_event("evt_C")]);
    assert!(result.is_ok());
    assert_eq!(
        result.unwrap(),
        vec![EventOutcome::Inserted, EventOutcome::Duplicate, EventOutcome::Inserted]
    );

    assert_eq!(storage.rows.len(), 3);
}

#[test]
fn duplicate_and_conflict_inside_same_batch_are_classified() {
    let mut storage = Relation::default();

    let result = storage.persist(&[
        mock_event_user("evt_B", "user1"),
        mock_event_user("evt_B", "user1"),
        mock_event_user("evt_B", "user2"),
    ]);
    assert!(result.is_ok());
    assert_eq!(
        result.unwrap(),
        vec![EventOutcome::Inserted, EventOutcome::Duplicate, EventOutcome::Conflict]
    );

    let stored = storage.get_by_id("evt_B").unwrap().unwrap();
    assert_eq!(stored.payload, json(r#"{"user_id": "user1"}"#));
}

#[test]
fn concurrent_duplicate_requests_create_one_logical_record() {
    let mut storage = Relation::default();
    let mut inserted_count = 0;
    let mut duplicate_count = 0;
    let mut conflict_count = 0;

    for _ in 0..10 {
        let result = storage.persist(&[mock_event("evt_concurrent")]).unwrap();
        assert_eq!(result.len(), 1);
        match &result[0] {
            EventOutcome::Inserted => inserted_count += 1,
            EventOutcome::Duplicate => duplicate_count += 1,
            EventOutcome::Conflict => conflict_count += 1,
        }
    }
    assert_eq!(inserted_count, 1);
    assert_eq!(duplicate_count, 9);
    assert_eq!(conflict_count, 0);
    assert_eq!(storage.rows.len(), 1);
}

#[test]
fn batch_and_sequence_agree() {
    let events = vec![
        mock_event_user("A", "1"),
        mock_event_user("B", "1"),
        mock_event_user("A", "2"),
        mock_event_user("C", "1"),
        mock_event_user("B", "1"),
        mock_event_user("A", "1"),
        mock_event_user("C", "3"),
    ];
    for cut in 0..events.len() {
        let mut relation = Relation::default();
        let mut memory = TestStorage::default();
        let mut in_batches = relation.persist(&events[..cut]).unwrap();
        in_batches.extend(relation.persist(&events[cut..]).unwrap());
        let one_by_one: Vec<EventOutcome> = events
            .iter()
            .map(|event| memory.persist(std::slice::from_ref(event)).unwrap()[0])
            .collect();
        assert_eq!(in_batches, one_by_one);
        assert_eq!(
            one_by_one,
            vec![
                EventOutcome::Inserted,
                EventOutcome::Inserted,
                EventOutcome::Conflict,
                EventOutcome::Inserted,
                EventOutcome::Duplicate,
                EventOutcome::Duplicate,
                EventOutcome::Conflict,
            ]
        );
        for id in ["A", "B", "C", "D"] {
            assert_eq!(relation.get_by_id(id), memory.get_by_id(id));
        }
    }
}

#[test]
fn memory_keeps_the_first_event_of_each_id() {
    let mut storage = TestStorage::default();
    assert_eq!(storage.get_by_id("A"), Ok(None));
    let result = storage.persist(&[
        mock_event_user("B", "1"),
        mock_event_user("A", "1"),
        mock_event_user("B", "2"),
    ]);
    assert_eq!(
        result,
        Ok(vec![EventOutcome::Inserted, EventOutcome::Inserted, EventOutcome::Conflict])
    );
    assert_eq!(storage.events().len(), 2);
    assert_eq!(storage.events()[0], mock_event_user("B", "1"));
    assert_eq!(storage.events()[1], mock_event_user("A", "1"));
    assert_eq!(storage.get_by_id("B"), Ok(Some(mock_event_user("B", "1"))));
}

#[test]
fn retry_of_a_batch_finds_duplicates_and_the_same_conflicts() {
    let mut storage = TestStorage::default();
    let batch =
        [mock_event_user("A", "1"), mock_event_user("A", "2"), mock_event_user("B", "1")];
    assert_eq!(
        storage.persist(&batch),
        Ok(vec![EventOutcome::Inserted, EventOutcome::Conflict, EventOutcome::Inserted])
    );
    assert_eq!(
        storage.persist(&batch),
        Ok(vec![EventOutcome::Duplicate, EventOutcome::Conflict, EventOutcome::Duplicate])
    );
    assert_eq!(storage.events().len(), 2);
}

#[test]
fn plan_takes_the_first_event_of_each_id() {
    let events =
        [mock_event_user("B", "1"), mock_event_user("A", "1"), mock_event_user("B", "2")];
    let plan = InsertPlan::new(&events).unwrap();
    assert_eq!(plan.event_ids, vec!["B", "A"]);
    assert_eq!(plan.tenant_ids, vec!["tenant-123", "tenant-123"]);
    assert_eq!(plan.event_types, vec!["user.signed_up", "user.signed_up"]);
    assert_eq!(plan.event_timestamps, vec![1700000000, 1700000000]);
    assert_eq!(*plan.payloads[0], json(r#"{"user_id": "1"}"#));
    assert_eq!(plan.ids_to_look_up(&["A".to_string()]), vec!["B"]);
    assert!(plan.ids_to_look_up(&["A".to_string(), "B".to_string()]).is_empty());
    assert!(InsertPlan::new(&[]).is_none());
}

#[test]
fn event_without_row_is_undecided() {
    let events = [mock_event("A"), mock_event("B")];
    assert_eq!(first_undecided(&events, &["A".to_string()], &[]), Some(1));
    assert_eq!(first_undecided(&events, &["A".to_string()], &[mock_event("B")]), None);
}

#[test]
fn outcome_of_each_situation() {
    for inserted in [false, true] {
        for first in [false, true] {
            assert_eq!(event_outcome(inserted, first, false), EventOutcome::Conflict);
        }
    }
    assert_eq!(event_outcome(true, true, true), EventOutcome::Inserted);
    assert_eq!(event_outcome(true, false, true), EventOutcome::Duplicate);
    assert_eq!(event_outcome(false, true, true), EventOutcome::Duplicate);
    assert_eq!(event_outcome(false, false, true), EventOutcome::Duplicate);
}

#[test]
fn content_is_compared_field_by_field() {
    let event = mock_event("A");
    assert!(same_event(&event, &mock_event("B")));
    assert!(!same_event(&event, &Event { tenant_id: "other".to_string(), ..mock_event("A") }));
    assert!(!same_event(&event, &Event { event_type: "other".to_string(), ..mock_event("A") }));
    assert!(!same_event(&event, &Event { event_timestamp: 1, ..mock_event("A") }));
    assert!(!same_event(&event, &Event { payload: Value::Null, ..mock_event("A") }));
    // Objects are compared without regard to the order of their keys, and both zeros are equal.
    let left = Event { payload: json(r#"{"a": 1, "b": -0.0}"#), ..mock_event("A") };
    let right = Event { payload: json(r#"{"b": 0.0, "a": 1}"#), ..mock_event("A") };
    assert!(same_event(&left, &right));
    let float = Event { payload: json(r#"{"a": 1.0, "b": 0.0}"#), ..mock_event("A") };
    assert!(!same_event(&left, &float));
}

#[test]
fn timestamps_survive_their_column() {
    assert_eq!(timestamp_to_column(1700000000), 1700000000);
    assert_eq!(timestamp_to_column(u64::MAX), -1);
    assert_eq!(timestamp_to_column(1 << 63), i64::MIN);
    for timestamp in [0, 1, 1700000000, i64::MAX as u64, 1 << 63, u64::MAX] {
        assert_eq!(timestamp_from_column(timestamp_to_column(timestamp)), timestamp);
    }
}

#[test]
fn errors_are_reported_with_their_kind() {
    assert_eq!(StorageError::Database("gone".to_string()).message(), "Database error: gone");
    assert_eq!(
        StorageError::ContractViolation("two".to_string()).message(),
        "Contract Violation: two"
    );
    assert_eq!(
        StorageError::Unavailable("forced test failure".to_string()).message(),
        "Storage Unavailable: forced test failure"
    );
}
