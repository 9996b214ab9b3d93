use rust_event_stream::domain::Event;
use rust_event_stream::memory::TestStorage;
use rust_event_stream::metrics::{batch_counter, Counter};
use rust_event_stream::pipeline::{
    batch_replies, send_event, Batch, BoundedQueue, Delivery, EventSendError, PersistRequest,
    Reply, Worker, FLUSH_INTERVAL_NANOS,
};
use rust_event_stream::storage::{EventOutcome, StorageError};
use serde_json::Value;
use tokio::sync::{mpsc, oneshot};

fn mock_event(id: &str) -> Event {
    Event {
        event_id: id.to_string(),
        tenant_id: "tenant-123".to_string(),
        event_type: "user.signed_up".to_string(),
        event_timestamp: 1700000000,
        payload: serde_json::from_str(r#"{"user_id": 42}"#).unwrap(),
    }
}

/// A request whose handle is a number.
fn request(event: Event, reply_to: usize) -> PersistRequest<usize> {
    PersistRequest { event, reply_to }
}

fn queue(batch_size: usize) -> (BoundedQueue<&'static str>, Worker<usize>) {
    BoundedQueue::new(batch_size)
}

/// Stores a batch, if there is one, and gives the answers by handle.
fn store(
    batch: Option<Batch<usize>>,
    persist: &mut dyn FnMut(&[Event]) -> Result<Vec<EventOutcome>, StorageError>,
) -> Vec<(usize, Reply)> {
    match batch {
        Some(batch) => {
            let result = persist(&batch.events);
            batch_replies(batch.reply_tos, result)
        }
        None => vec![],
    }
}

fn told(reply: Reply) -> Result<EventOutcome, EventSendError> {
    send_event(Delivery::Answered(reply))
}

fn failing(_: &[Event]) -> Result<Vec<EventOutcome>, StorageError> {
    Err(StorageError::Unavailable("forced test failure".to_string()))
}

/// A sender that waits for its answer before the next event: the deadline flushes each event.
fn send_one(worker: &mut Worker<usize>, sink: &mut TestStorage, event: Event) -> Reply {
    let mut persist = |events: &[Event]| sink.persist(events);
    assert!(worker.receive(request(event, 0), 0).is_none());
    let mut replies = store(worker.deadline_reached(), &mut persist);
    assert_eq!(replies.len(), 1);
    replies.remove(0).1
}

type ReplyTx = oneshot::Sender<Reply>;

/// A worker behind a real channel, which runs whenever a sender waits.
struct Pipeline {
    rx: mpsc::Receiver<PersistRequest<ReplyTx>>,
    queue: BoundedQueue<&'static str>,
    worker: Option<Worker<ReplyTx>>,
    cancelled: bool,
    sink: TestStorage,
}

fn open(buffer_size: usize, batch_size: usize) -> (mpsc::Sender<PersistRequest<ReplyTx>>, Pipeline) {
    let (tx, rx) = mpsc::channel(buffer_size);
    let (mut queue, worker) = BoundedQueue::new(batch_size);
    queue.spawn("worker");
    let sink = TestStorage::default();
    (tx, Pipeline { rx, queue, worker: Some(worker), cancelled: false, sink })
}

impl Pipeline {
    fn flush(&mut self, batch: Option<Batch<ReplyTx>>) {
        if let Some(batch) = batch {
            let result = self.sink.persist(&batch.events);
            for (reply_to, reply) in batch_replies(batch.reply_tos, result) {
                let _ = reply_to.send(reply);
            }
        }
    }

    /// Takes what is queued, and lets the deadline pass. Without a worker what is queued is
    /// dropped.
    fn serve(&mut self) {
        let mut worker = self.worker.take();
        while let Ok(request) = self.rx.try_recv() {
            let batch = worker.as_mut().and_then(|worker| worker.receive(request, 0));
            self.flush(batch);
        }
        let batch = worker.as_mut().and_then(|worker| worker.deadline_reached());
        self.flush(batch);
        self.worker = worker;
    }

    fn send(
        &mut self,
        tx: &mpsc::Sender<PersistRequest<ReplyTx>>,
        event: Event,
    ) -> Result<EventOutcome, EventSendError> {
        let (reply_to, answer) = oneshot::channel();
        if tx.blocking_send(PersistRequest { event, reply_to }).is_err() {
            return send_event(Delivery::Refused);
        }
        self.serve();
        match answer.blocking_recv() {
            Ok(reply) => send_event(Delivery::Answered(reply)),
            Err(_) => send_event(Delivery::Dropped),
        }
    }

    /// Shuts down, and gives the handle that was waited for.
    fn shutdown(&mut self) -> Option<&'static str> {
        let shutdown = self.queue.shutdown(self.cancelled);
        if shutdown.cancel {
            self.cancelled = true;
        }
        if shutdown.join.is_some() {
            self.rx.close();
            let mut draining = self.worker.take().unwrap().cancel();
            while let Some(request) = self.rx.blocking_recv() {
                let batch = draining.receive(request);
                self.flush(batch);
            }
            self.flush(draining.finish());
        }
        shutdown.join
    }
}

#[test]
fn worker_sends_events_to_sink() {
    let mut sink = TestStorage::default();
    let (_, mut worker) = queue(3);

    for id in ["1", "2", "3", "4"] {
        assert!(told(send_one(&mut worker, &mut sink, mock_event(id))).is_ok());
    }
    assert!(worker.cancel().finish().is_none());

    assert_eq!(sink.events().len(), 4);
    assert_eq!(sink.events()[0], mock_event("1"));
    assert_eq!(sink.events()[1], mock_event("2"));
    assert_eq!(sink.events()[2], mock_event("3"));
    assert_eq!(sink.events()[3], mock_event("4"));
}

#[test]
fn worker_completion_is_observable() {
    let event = |id: &str| {
        Event::new(
            id.to_string(),
            "1".to_string(),
            "1".to_string(),
            12345,
            Value::String("1".to_string()),
        )
        .unwrap()
    };
    let mut sink = TestStorage::default();
    let (_, mut worker) = queue(3);

    let _ = send_one(&mut worker, &mut sink, mock_event("1"));
    let _ = send_one(&mut worker, &mut sink, event("2"));
    let _ = send_one(&mut worker, &mut sink, event("3"));
    let _ = send_one(&mut worker, &mut sink, event("4"));
    assert!(worker.cancel().finish().is_none());

    assert_eq!(sink.events().len(), 4);
    assert_eq!(sink.events()[0], mock_event("1"));
    assert_eq!(sink.events()[3], event("4"));
}

#[test]
fn batch_flushes_when_interval_expires() {
    let mut sink = TestStorage::default();
    let (_, mut worker) = queue(3);

    assert_eq!(worker.flush_deadline(), None);
    assert!(worker.receive(request(mock_event("A"), 1), 1000).is_none());
    assert_eq!(FLUSH_INTERVAL_NANOS, 50 * 1000 * 1000);
    assert_eq!(worker.flush_deadline(), Some(1000 + FLUSH_INTERVAL_NANOS));

    let batch = worker.deadline_reached();
    assert_eq!(worker.flush_deadline(), None);
    let replies = store(batch, &mut |events| sink.persist(events));
    assert_eq!(replies, vec![(1, Ok(EventOutcome::Inserted))]);
    assert_eq!(sink.events().len(), 1);
}

#[test]
fn batch_flushes_when_size_is_reached() {
    let mut sink = TestStorage::default();
    let (_, mut worker) = queue(3);

    assert!(worker.receive(request(mock_event("A"), 1), 0).is_none());
    assert!(worker.receive(request(mock_event("B"), 2), 10).is_none());
    assert_eq!(worker.flush_deadline(), Some(FLUSH_INTERVAL_NANOS));
    let batch = worker.receive(request(mock_event("C"), 3), 20);
    assert_eq!(worker.flush_deadline(), None);

    let replies = store(batch, &mut |events| sink.persist(events));
    assert_eq!(
        replies,
        vec![
            (1, Ok(EventOutcome::Inserted)),
            (2, Ok(EventOutcome::Inserted)),
            (3, Ok(EventOutcome::Inserted)),
        ]
    );
    assert_eq!(sink.events().len(), 3);
}

#[test]
fn shutdown_drains_accepted_events() {
    let mut sink: Vec<Event> = Vec::new();
    let mut persist = |events: &[Event]| {
        sink.extend_from_slice(events);
        Ok(vec![EventOutcome::Inserted; events.len()])
    };
    let (_, mut worker) = queue(3);

    let len = 100;
    let mut answered = 0;
    for n in 1..len {
        if n <= 50 {
            answered += store(worker.receive(request(mock_event("2"), n), 0), &mut persist).len();
        }
    }
    let mut draining = worker.cancel();
    for n in 51..len {
        answered += store(draining.receive(request(mock_event("2"), n)), &mut persist).len();
    }
    answered += store(draining.finish(), &mut persist).len();

    assert_eq!(answered, len - 1);
    assert_eq!(sink.len(), len - 1);
}

#[test]
fn new_work_is_not_accepted_after_shutdown() {
    let (tx, mut pipeline) = open(50, 3);

    let res1 = pipeline.send(&tx, mock_event("1"));
    assert!(res1.is_ok());

    assert_eq!(pipeline.shutdown(), Some("worker"));

    let res2 = pipeline.send(&tx, mock_event("2"));
    assert!(matches!(res2, Err(EventSendError::QueueClosed)));
    assert_eq!(pipeline.sink.events().len(), 1);
}

#[test]
fn repeated_shutdown_does_not_hang() {
    let (tx, mut pipeline) = open(50, 3);

    let res1 = pipeline.send(&tx, mock_event("1"));
    assert!(res1.is_ok());

    assert_eq!(pipeline.shutdown(), Some("worker"));
    assert!(pipeline.cancelled);
    // Nothing is left to wait for.
    assert_eq!(pipeline.shutdown(), None);

    let (mut queue, _) = queue(3);
    queue.spawn("worker");
    assert!(queue.shutdown(false).cancel);
    let second = queue.shutdown(true);
    assert!(!second.cancel);
    assert_eq!(second.join, None);
}

#[test]
fn shutdown_with_empty_queue() {
    let (_, mut pipeline) = open(50, 3);
    assert_eq!(pipeline.shutdown(), Some("worker"));
    assert!(pipeline.cancelled);
    assert!(pipeline.sink.events().is_empty());
}

#[test]
fn worker_that_goes_away_is_noticed() {
    let (tx, mut pipeline) = open(50, 3);
    pipeline.worker = None;
    let result = pipeline.send(&tx, mock_event("1"));
    assert!(matches!(result, Err(EventSendError::WorkerDropped)));
}

#[test]
fn queued_requests_are_answered_once_during_shutdown() {
    let (tx, mut pipeline) = open(50, 3);
    let mut waiting = Vec::new();
    for id in ["a", "b", "a", "c", "d"] {
        let (reply_to, answer) = oneshot::channel();
        assert!(tx.blocking_send(PersistRequest { event: mock_event(id), reply_to }).is_ok());
        waiting.push(answer);
    }
    assert_eq!(pipeline.shutdown(), Some("worker"));
    let answers: Vec<Reply> =
        waiting.into_iter().map(|answer| answer.blocking_recv().unwrap()).collect();
    assert_eq!(
        answers,
        vec![
            Ok(EventOutcome::Inserted),
            Ok(EventOutcome::Inserted),
            Ok(EventOutcome::Duplicate),
            Ok(EventOutcome::Inserted),
            Ok(EventOutcome::Inserted),
        ]
    );
    assert_eq!(pipeline.sink.events().len(), 4);
}

#[test]
fn batch_failure_returns_error_to_callers() {
    let (_, mut worker) = queue(3);
    assert!(worker.receive(request(mock_event("A"), 1), 0).is_none());
    assert!(worker.receive(request(mock_event("B"), 2), 0).is_none());
    let batch = worker.receive(request(mock_event("C"), 3), 0);

    let replies = store(batch, &mut failing);
    assert_eq!(replies.len(), 3);
    for (_, reply) in replies {
        match told(reply) {
            Err(EventSendError::Storage(error)) => {
                assert_eq!(error.message(), "Storage Unavailable: forced test failure")
            }
            _ => panic!("a failed batch must be reported"),
        }
    }
    assert!(worker.cancel().finish().is_none());
}

#[test]
fn shutdown_flushes_partial_batch() {
    let mut sink = TestStorage::default();
    let (_, mut worker) = queue(3);
    assert!(worker.receive(request(mock_event("A"), 1), 0).is_none());

    let mut draining = worker.cancel();
    assert!(draining.receive(request(mock_event("B"), 2)).is_none());
    let replies = store(draining.finish(), &mut |events| sink.persist(events));

    assert_eq!(
        replies,
        vec![(1, Ok(EventOutcome::Inserted)), (2, Ok(EventOutcome::Inserted))]
    );
    assert_eq!(sink.events().len(), 2);
    assert_eq!(sink.events()[0], mock_event("A"));
    assert_eq!(sink.events()[1], mock_event("B"));
}

#[test]
fn storage_error_does_not_panic_worker() {
    let (_, mut worker) = queue(3);
    assert!(worker.receive(request(mock_event("1"), 1), 0).is_none());
    let mut replies = store(worker.deadline_reached(), &mut failing);
    assert!(matches!(told(replies.remove(0).1), Err(EventSendError::Storage(_))));

    // The worker goes on after the error.
    assert!(worker.receive(request(mock_event("2"), 2), 0).is_none());
    assert!(worker.cancel().finish().is_some());
}

#[test]
fn no_request_is_lost_or_reordered() {
    for batch_size in 0..5 {
        let (_, mut worker) = queue(batch_size);
        let mut seen: Vec<usize> = Vec::new();
        let mut take = |batch: Option<Batch<usize>>| {
            if let Some(batch) = batch {
                assert_eq!(batch.events.len(), batch.reply_tos.len());
                assert!(batch.events.len() <= std::cmp::max(batch_size, 1));
                for k in 0..batch.events.len() {
                    assert_eq!(batch.events[k].event_id, batch.reply_tos[k].to_string());
                }
                seen.extend(batch.reply_tos);
            }
        };
        for n in 0..11 {
            take(worker.receive(request(mock_event(&n.to_string()), n), 0));
            if n == 4 {
                take(worker.deadline_reached());
            }
        }
        let mut draining = worker.cancel();
        for n in 11..20 {
            take(draining.receive(request(mock_event(&n.to_string()), n)));
        }
        take(draining.finish());
        assert_eq!(seen, (0..20).collect::<Vec<usize>>());
    }
}

#[test]
fn deadline_follows_the_oldest_request() {
    let (_, mut worker) = queue(10);
    let _ = worker.receive(request(mock_event("1"), 1), 7);
    let _ = worker.receive(request(mock_event("2"), 2), 1000);
    assert_eq!(worker.flush_deadline(), Some(7 + FLUSH_INTERVAL_NANOS));
    assert!(worker.deadline_reached().is_some());
    assert!(worker.deadline_reached().is_none());
    let _ = worker.receive(request(mock_event("3"), 3), 2000);
    assert_eq!(worker.flush_deadline(), Some(2000 + FLUSH_INTERVAL_NANOS));
}

#[test]
fn each_sender_gets_its_own_outcome() {
    let outcomes =
        vec![EventOutcome::Conflict, EventOutcome::Inserted, EventOutcome::Duplicate];
    assert_eq!(
        batch_replies(vec!["a", "b", "c"], Ok(outcomes)),
        vec![
            ("a", Ok(EventOutcome::Conflict)),
            ("b", Ok(EventOutcome::Inserted)),
            ("c", Ok(EventOutcome::Duplicate)),
        ]
    );
}

#[test]
fn wrong_number_of_outcomes_breaks_the_contract() {
    let replies = batch_replies(vec![1, 2, 3], Ok(vec![EventOutcome::Inserted]));
    assert_eq!(replies.len(), 3);
    for (_, reply) in replies {
        assert_eq!(reply.unwrap_err().message(), "Contract Violation: 1 outcomes for 3 events");
    }
}

#[test]
fn sender_is_told_what_became_of_its_event() {
    assert!(matches!(send_event(Delivery::Refused), Err(EventSendError::QueueClosed)));
    assert!(matches!(send_event(Delivery::Dropped), Err(EventSendError::WorkerDropped)));
    assert!(matches!(
        send_event(Delivery::Answered(Ok(EventOutcome::Duplicate))),
        Ok(EventOutcome::Duplicate)
    ));
}

#[test]
fn failed_batches_are_counted_once() {
    assert_eq!(batch_counter(&failing(&[])), Some(Counter::DbErrors));
    assert_eq!(batch_counter(&Ok(vec![EventOutcome::Conflict])), None);
}
