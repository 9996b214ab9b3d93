//! The pipeline between the HTTP side and the storage: a worker gathers requests into batches,
//! and every request is answered with what became of its event.
//!
//! A request carries a handle `R` through which its sender waits for the answer. The worker takes
//! one input at a time and says which batch, if any, is to be stored now. While it runs it is a
//! [`Worker`]; once it is told to stop it is a [`DrainingWorker`], which takes the requests that
//! are still queued.

use crate::domain::Event;
use crate::storage::{EventOutcome, StorageError};
use crate::text::{decimal, decimal_text};
use std::sync::Arc;
use vstd::prelude::*;
use vstd::string::StringExecFns;

verus! {

/// How long a request may wait for its batch to fill, in nanoseconds.
pub const FLUSH_INTERVAL_NANOS: u64 = 50_000_000;

/// An event that waits to be stored, and the handle by which its sender is answered.
pub struct PersistRequest<R> {
    pub event: Event,
    pub reply_to: R,
}

/// The events of a batch, and the handles of their senders in the same order.
pub struct Batch<R> {
    pub events: Vec<Event>,
    pub reply_tos: Vec<R>,
}

impl<R> Batch<R> {
    /// Whether the batch is made of `requests`, in their order.
    pub open spec fn holds(self, requests: Seq<PersistRequest<R>>) -> bool {
        &&& self.events@.len() == requests.len()
        &&& self.reply_tos@.len() == requests.len()
        &&& forall|i: int|
            0 <= i < requests.len() ==> #[trigger] self.events@[i] == requests[i].event
        &&& forall|i: int|
            0 <= i < requests.len() ==> #[trigger] self.reply_tos@[i] == requests[i].reply_to
    }
}

/// Whether `batch` hands over `requests`: nothing when there are none.
pub open spec fn hands_over<R>(batch: Option<Batch<R>>, requests: Seq<PersistRequest<R>>) -> bool {
    match batch {
        None => requests.len() == 0,
        Some(batch) => requests.len() > 0 && batch.holds(requests),
    }
}

fn make_batch<R>(requests: Vec<PersistRequest<R>>) -> (batch: Option<Batch<R>>)
    ensures
        hands_over(batch, requests@),
{
    if requests.is_empty() {
        return None;
    }
    let ghost all = requests@;
    let mut events: Vec<Event> = Vec::with_capacity(requests.len());
    let mut reply_tos: Vec<R> = Vec::with_capacity(requests.len());
    for request in iter: requests
        invariant
            iter.seq() == all,
            events@.len() == iter.index(),
            reply_tos@.len() == iter.index(),
            forall|i: int| 0 <= i < iter.index() ==> #[trigger] events@[i] == all[i].event,
            forall|i: int| 0 <= i < iter.index() ==> #[trigger] reply_tos@[i] == all[i].reply_to,
    {
        events.push(request.event);
        reply_tos.push(request.reply_to);
    }
    Some(Batch { events, reply_tos })
}

/// The state of a running worker.
#[verifier::ext_equal]
pub struct WorkerView<R> {
    pub batch_size: nat,
    pub flush_interval: u64,
    pub flush_deadline: Option<u64>,
    pub buffer: Seq<PersistRequest<R>>,
}

/// A running worker takes a request at the time `now`. It gives the state after and the requests
/// that are flushed.
pub open spec fn worker_receive<R>(
    state: WorkerView<R>,
    request: PersistRequest<R>,
    now: u64,
) -> (WorkerView<R>, Seq<PersistRequest<R>>) {
    let buffer = state.buffer.push(request);
    if buffer.len() >= state.batch_size {
        (WorkerView { buffer: Seq::empty(), flush_deadline: None, ..state }, buffer)
    } else if state.buffer.len() == 0 {
        (
            WorkerView {
                buffer,
                flush_deadline: Some((now + state.flush_interval) as u64),
                ..state
            },
            Seq::empty(),
        )
    } else {
        (WorkerView { buffer, ..state }, Seq::empty())
    }
}

/// The deadline of a running worker passes: what is buffered is flushed.
pub open spec fn worker_deadline<R>(state: WorkerView<R>) -> (
    WorkerView<R>,
    Seq<PersistRequest<R>>,
) {
    (WorkerView { buffer: Seq::empty(), flush_deadline: None, ..state }, state.buffer)
}

/// A draining worker with `buffer` takes a request. It gives the buffer after and the requests
/// that are flushed.
pub open spec fn drain_receive<R>(
    batch_size: nat,
    buffer: Seq<PersistRequest<R>>,
    request: PersistRequest<R>,
) -> (Seq<PersistRequest<R>>, Seq<PersistRequest<R>>) {
    let buffer = buffer.push(request);
    if buffer.len() >= batch_size {
        (Seq::empty(), buffer)
    } else {
        (buffer, Seq::empty())
    }
}

/// A worker that runs: it waits for requests, for its deadline and for the order to stop.
pub struct Worker<R> {
    batch_size: usize,
    flush_interval: u64,
    flush_deadline: Option<u64>,
    buffer: Vec<PersistRequest<R>>,
}

/// A worker that was told to stop and takes the requests that are still queued.
pub struct DrainingWorker<R> {
    batch_size: usize,
    buffer: Vec<PersistRequest<R>>,
}

impl<R> View for Worker<R> {
    type V = WorkerView<R>;

    closed spec fn view(&self) -> WorkerView<R> {
        WorkerView {
            batch_size: self.batch_size as nat,
            flush_interval: self.flush_interval,
            flush_deadline: self.flush_deadline,
            buffer: self.buffer@,
        }
    }
}

impl<R> Worker<R> {
    /// A worker with an empty buffer.
    pub fn new(batch_size: usize, flush_interval: u64) -> (worker: Self)
        ensures
            worker@ == (WorkerView::<R> {
                batch_size: batch_size as nat,
                flush_interval,
                flush_deadline: None,
                buffer: Seq::empty(),
            }),
    {
        Worker { batch_size, flush_interval, flush_deadline: None, buffer: Vec::new() }
    }

    /// When the buffer is due, if anything is buffered.
    pub fn flush_deadline(&self) -> (deadline: Option<u64>)
        ensures
            deadline == self@.flush_deadline,
    {
        self.flush_deadline
    }

    fn flush_buffer(&mut self) -> (batch: Option<Batch<R>>)
        ensures
            final(self)@ == worker_deadline(old(self)@).0,
            hands_over(batch, worker_deadline(old(self)@).1),
    {
        let mut requests: Vec<PersistRequest<R>> = Vec::with_capacity(self.buffer.len());
        std::mem::swap(&mut self.buffer, &mut requests);
        self.flush_deadline = None;
        make_batch(requests)
    }

    /// Takes a request that came at the time `now`, and gives the batch that is to be stored, if
    /// the buffer is full.
    pub fn receive(&mut self, request: PersistRequest<R>, now: u64) -> (batch: Option<Batch<R>>)
        requires
            old(self)@.buffer.len() == 0 ==> now + old(self)@.flush_interval <= u64::MAX,
        ensures
            final(self)@ == worker_receive(old(self)@, request, now).0,
            hands_over(batch, worker_receive(old(self)@, request, now).1),
    {
        if self.buffer.is_empty() {
            self.flush_deadline = Some(now + self.flush_interval);
        }
        self.buffer.push(request);
        if self.buffer.len() >= self.batch_size {
            return self.flush_buffer();
        }
        None
    }

    /// The deadline has passed: gives what is buffered.
    pub fn deadline_reached(&mut self) -> (batch: Option<Batch<R>>)
        ensures
            final(self)@ == worker_deadline(old(self)@).0,
            hands_over(batch, worker_deadline(old(self)@).1),
    {
        self.flush_buffer()
    }

    /// Stops waiting for new requests and deadlines.
    pub fn cancel(self) -> (draining: DrainingWorker<R>)
        ensures
            draining.size() == self@.batch_size,
            draining@ == self@.buffer,
    {
        DrainingWorker { batch_size: self.batch_size, buffer: self.buffer }
    }
}

impl<R> View for DrainingWorker<R> {
    type V = Seq<PersistRequest<R>>;

    closed spec fn view(&self) -> Seq<PersistRequest<R>> {
        self.buffer@
    }
}

impl<R> DrainingWorker<R> {
    /// The number of requests at which the buffer is flushed.
    pub closed spec fn size(&self) -> nat {
        self.batch_size as nat
    }

    /// Takes a request that was still queued, and gives the batch that is to be stored, if the
    /// buffer is full.
    pub fn receive(&mut self, request: PersistRequest<R>) -> (batch: Option<Batch<R>>)
        ensures
            final(self).size() == old(self).size(),
            final(self)@ == drain_receive(old(self).size(), old(self)@, request).0,
            hands_over(batch, drain_receive(old(self).size(), old(self)@, request).1),
    {
        self.buffer.push(request);
        if self.buffer.len() >= self.batch_size {
            let mut requests: Vec<PersistRequest<R>> = Vec::with_capacity(self.buffer.len());
            std::mem::swap(&mut self.buffer, &mut requests);
            return make_batch(requests);
        }
        None
    }

    /// The queue is empty: gives what is buffered as the last batch.
    pub fn finish(self) -> (batch: Option<Batch<R>>)
        ensures
            hands_over(batch, self@),
    {
        make_batch(self.buffer)
    }
}

/// What a sender is answered: the outcome of its event, or the error that its batch met.
pub type Reply = Result<EventOutcome, Arc<StorageError>>;

/// Calls `std::sync::Arc::clone`, which gives another pointer to the same value.
#[verifier::external_body]
fn share(error: &Arc<StorageError>) -> (shared: Arc<StorageError>)
    ensures
        shared == *error,
{
    Arc::clone(error)
}

/// The text of the error when a storage gives `outcomes` outcomes for `events` events.
pub open spec fn mismatch_text(outcomes: nat, events: nat) -> Seq<char> {
    decimal(outcomes) + " outcomes for "@ + decimal(events) + " events"@
}

fn mismatch_error(outcomes: usize, events: usize) -> (error: StorageError)
    ensures
        error matches StorageError::ContractViolation(text) && text@ == mismatch_text(
            outcomes as nat,
            events as nat,
        ),
{
    let text = decimal_text(outcomes as u64).concat(" outcomes for ").concat(
        decimal_text(events as u64).as_str(),
    ).concat(" events");
    StorageError::ContractViolation(text)
}

/// Whether `reply` is what the sender at position `i` of `count` is answered, given the result of
/// storing the batch: its own outcome, or the error that the storage met. A storage that does not
/// give one outcome for each event has broken its contract, and every sender learns of it.
pub open spec fn answers(
    reply: Reply,
    result: Result<Vec<EventOutcome>, StorageError>,
    count: nat,
    i: int,
) -> bool {
    match result {
        Ok(outcomes) => if outcomes@.len() == count {
            reply == Ok::<EventOutcome, Arc<StorageError>>(outcomes@[i])
        } else {
            reply matches Err(error) && *error matches StorageError::ContractViolation(text)
                && text@ == mismatch_text(outcomes@.len(), count)
        },
        Err(error) => reply matches Err(shared) && *shared == error,
    }
}

fn same_error_for_all<R>(reply_tos: Vec<R>, error: StorageError) -> (replies: Vec<(R, Reply)>)
    ensures
        replies@.len() == reply_tos@.len(),
        forall|i: int|
            0 <= i < reply_tos@.len() ==> (#[trigger] replies@[i]).0 == reply_tos@[i]
                && (replies@[i].1 matches Err(shared) && *shared == error),
{
    let ghost all = reply_tos@;
    let shared = Arc::new(error);
    let mut replies: Vec<(R, Reply)> = Vec::with_capacity(reply_tos.len());
    for reply_to in iter: reply_tos
        invariant
            iter.seq() == all,
            *shared == error,
            replies@.len() == iter.index(),
            forall|i: int|
                0 <= i < iter.index() ==> (#[trigger] replies@[i]).0 == all[i]
                    && (replies@[i].1 matches Err(shared) && *shared == error),
    {
        replies.push((reply_to, Err(share(&shared))));
    }
    replies
}

/// Pairs every sender of a batch with its answer, given the result of storing the batch.
pub fn batch_replies<R>(
    reply_tos: Vec<R>,
    result: Result<Vec<EventOutcome>, StorageError>,
) -> (replies: Vec<(R, Reply)>)
    ensures
        replies@.len() == reply_tos@.len(),
        forall|i: int|
            0 <= i < reply_tos@.len() ==> (#[trigger] replies@[i]).0 == reply_tos@[i] && answers(
                replies@[i].1,
                result,
                reply_tos@.len(),
                i,
            ),
{
    match result {
        Ok(outcomes) => {
            if outcomes.len() != reply_tos.len() {
                let error = mismatch_error(outcomes.len(), reply_tos.len());
                return same_error_for_all(reply_tos, error);
            }
            let ghost all = reply_tos@;
            let mut replies: Vec<(R, Reply)> = Vec::with_capacity(reply_tos.len());
            for reply_to in iter: reply_tos
                invariant
                    iter.seq() == all,
                    outcomes@.len() == all.len(),
                    replies@.len() == iter.index(),
                    forall|i: int|
                        0 <= i < iter.index() ==> (#[trigger] replies@[i]).0 == all[i]
                            && replies@[i].1 == Ok::<EventOutcome, Arc<StorageError>>(outcomes@[i]),
            {
                let outcome = outcomes[replies.len()];
                replies.push((reply_to, Ok(outcome)));
            }
            replies
        },
        Err(error) => same_error_for_all(reply_tos, error),
    }
}

/// Why an event was not stored, as its sender sees it.
#[derive(Debug)]
pub enum EventSendError {
    /// The queue takes no more requests.
    QueueClosed,
    /// The worker went away before it answered.
    WorkerDropped,
    /// The storage met an error.
    Storage(Arc<StorageError>),
}

/// What became of a request that was handed to the queue.
pub enum Delivery {
    /// The queue was closed and did not take it.
    Refused,
    /// It was taken, and its handle was dropped without an answer.
    Dropped,
    /// It was taken and answered.
    Answered(Reply),
}

/// What the sender of an event is told.
pub fn send_event(delivery: Delivery) -> (result: Result<EventOutcome, EventSendError>)
    ensures
        result == (match delivery {
            Delivery::Refused => Err(EventSendError::QueueClosed),
            Delivery::Dropped => Err(EventSendError::WorkerDropped),
            Delivery::Answered(Ok(outcome)) => Ok(outcome),
            Delivery::Answered(Err(error)) => Err(EventSendError::Storage(error)),
        }),
{
    match delivery {
        Delivery::Refused => Err(EventSendError::QueueClosed),
        Delivery::Dropped => Err(EventSendError::WorkerDropped),
        Delivery::Answered(Ok(outcome)) => Ok(outcome),
        Delivery::Answered(Err(error)) => Err(EventSendError::Storage(error)),
    }
}

/// What is left to do to shut the pipeline down.
pub struct Shutdown<H> {
    /// Whether the worker is still to be told to stop.
    pub cancel: bool,
    /// The worker to wait for.
    pub join: Option<H>,
}

/// The owner of a worker, which runs behind the handle `H` once it was spawned.
pub struct BoundedQueue<H> {
    worker_handle: Option<H>,
}

impl<H> View for BoundedQueue<H> {
    type V = Option<H>;

    closed spec fn view(&self) -> Option<H> {
        self.worker_handle
    }
}

impl<H> BoundedQueue<H> {
    /// A queue whose worker has not been spawned, and the worker.
    pub fn new<R>(batch_size: usize) -> (pair: (Self, Worker<R>))
        ensures
            pair.0@ is None,
            pair.1@ == (WorkerView::<R> {
                batch_size: batch_size as nat,
                flush_interval: FLUSH_INTERVAL_NANOS,
                flush_deadline: None,
                buffer: Seq::empty(),
            }),
    {
        (BoundedQueue { worker_handle: None }, Worker::new(batch_size, FLUSH_INTERVAL_NANOS))
    }

    /// Keeps the handle of the worker that was spawned.
    pub fn spawn(&mut self, handle: H)
        ensures
            final(self)@ == Some(handle),
    {
        self.worker_handle = Some(handle);
    }

    /// Shuts the pipeline down, given whether the worker was told to stop before. The worker is
    /// waited for once: a second shutdown has nothing left to wait for.
    pub fn shutdown(&mut self, is_cancelled: bool) -> (shutdown: Shutdown<H>)
        ensures
            shutdown.cancel == !is_cancelled,
            shutdown.join == old(self)@,
            final(self)@ is None,
    {
        Shutdown { cancel: !is_cancelled, join: self.worker_handle.take() }
    }
}

} // verus!
