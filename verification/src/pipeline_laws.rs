//! What the calls of a worker come to, told by the requests that go in and the batches that come
//! out, and what senders are answered.

use crate::domain::Event;
use crate::pipeline::{
    batch_replies, send_event, Batch, BoundedQueue, Delivery, DrainingWorker, EventSendError,
    PersistRequest, Reply, Shutdown, Worker,
};
use crate::storage::{EventOutcome, StorageError};
use crate::text::number_read;
use std::sync::Arc;
use vstd::prelude::*;

verus! {

/// A new worker has nothing buffered and no deadline, and the given size and interval.
pub proof fn law_new_worker_is_idle<R>(
    batch_size: usize,
    flush_interval: u64,
    worker: Worker<R>,
    deadline: Option<u64>,
)
    requires
        call_ensures(Worker::<R>::new, (batch_size, flush_interval), worker),
        call_ensures(Worker::<R>::flush_deadline, (&worker,), deadline),
    ensures
        worker@.buffer.len() == 0,
        worker@.batch_size == batch_size,
        worker@.flush_interval == flush_interval,
        deadline is None,
{
}

/// A request that fills the buffer takes all that is buffered with it, itself last, and nothing
/// stays. Any other request stays at the end of the buffer, and nothing goes. The deadline is set by
/// the first request of a buffer, one interval after it came, and is not moved by later ones.
pub proof fn law_request_fills_or_waits<R>(
    worker: &mut Worker<R>,
    request: PersistRequest<R>,
    now: u64,
    batch: Option<Batch<R>>,
)
    requires
        call_ensures(Worker::<R>::receive, (worker, request, now), batch),
        old(worker)@.buffer.len() == 0 ==> now + old(worker)@.flush_interval <= u64::MAX,
    ensures
        final(worker)@.batch_size == old(worker)@.batch_size,
        final(worker)@.flush_interval == old(worker)@.flush_interval,
        ({
            let waiting = old(worker)@.buffer;
            let count = waiting.len() as int;
            let kept = final(worker)@.buffer;
            if count + 1 >= old(worker)@.batch_size {
                &&& kept.len() == 0
                &&& final(worker)@.flush_deadline is None
                &&& batch matches Some(batch) && {
                    &&& batch.events@.len() == count + 1
                    &&& batch.reply_tos@.len() == count + 1
                    &&& batch.events@[count] == request.event
                    &&& batch.reply_tos@[count] == request.reply_to
                    &&& forall|i: int|
                        0 <= i < count ==> #[trigger] batch.events@[i] == waiting[i].event
                    &&& forall|i: int|
                        0 <= i < count ==> #[trigger] batch.reply_tos@[i] == waiting[i].reply_to
                }
            } else {
                &&& batch is None
                &&& kept.len() == count + 1
                &&& kept[count] == request
                &&& forall|i: int| 0 <= i < count ==> #[trigger] kept[i] == waiting[i]
                &&& count == 0 ==> (final(worker)@.flush_deadline matches Some(deadline)
                    && deadline == now + old(worker)@.flush_interval)
                &&& count > 0 ==> final(worker)@.flush_deadline == old(worker)@.flush_deadline
            }
        }),
{
}

/// When the deadline passes all that is buffered is handed over, whatever its length and in its
/// order. Nothing stays, and no deadline is left.
pub proof fn law_deadline_hands_over_everything<R>(
    worker: &mut Worker<R>,
    batch: Option<Batch<R>>,
)
    requires
        call_ensures(Worker::<R>::deadline_reached, (worker,), batch),
    ensures
        final(worker)@.buffer.len() == 0,
        final(worker)@.flush_deadline is None,
        final(worker)@.batch_size == old(worker)@.batch_size,
        final(worker)@.flush_interval == old(worker)@.flush_interval,
        ({
            let waiting = old(worker)@.buffer;
            match batch {
                None => waiting.len() == 0,
                Some(batch) => {
                    &&& waiting.len() > 0
                    &&& batch.events@.len() == waiting.len()
                    &&& batch.reply_tos@.len() == waiting.len()
                    &&& forall|i: int|
                        0 <= i < waiting.len() ==> #[trigger] batch.events@[i] == waiting[i].event
                    &&& forall|i: int|
                        0 <= i < waiting.len() ==> #[trigger] batch.reply_tos@[i]
                            == waiting[i].reply_to
                },
            }
        }),
{
}

/// The deadline that is told is the one that is set.
pub proof fn law_deadline_is_told<R>(worker: &Worker<R>, deadline: Option<u64>)
    requires
        call_ensures(Worker::<R>::flush_deadline, (worker,), deadline),
    ensures
        deadline == worker@.flush_deadline,
{
}

/// The items of a batch: each event with the handle of its sender.
pub open spec fn items<R>(batch: Option<Batch<R>>) -> Seq<(Event, R)> {
    match batch {
        None => Seq::empty(),
        Some(batch) => Seq::new(
            batch.events@.len(),
            |i: int| (batch.events@[i], batch.reply_tos@[i]),
        ),
    }
}

/// The items that some requests ask to be stored.
pub open spec fn asked<R>(requests: Seq<PersistRequest<R>>) -> Seq<(Event, R)> {
    Seq::new(requests.len(), |i: int| (requests[i].event, requests[i].reply_to))
}

/// A call of a running worker, and what it gave.
pub enum Call<R> {
    Receive { request: PersistRequest<R>, now: u64, batch: Option<Batch<R>> },
    DeadlineReached { batch: Option<Batch<R>> },
}

impl<R> Call<R> {
    /// The item that the call brought, if any.
    pub open spec fn brought(self) -> Seq<(Event, R)> {
        match self {
            Call::Receive { request, now, batch } => seq![(request.event, request.reply_to)],
            Call::DeadlineReached { batch } => Seq::empty(),
        }
    }

    /// The batch that the call gave.
    pub open spec fn batch(self) -> Option<Batch<R>> {
        match self {
            Call::Receive { request, now, batch } => batch,
            Call::DeadlineReached { batch } => batch,
        }
    }
}

/// The items that were brought by the calls of `history`, in their order.
pub open spec fn taken<R>(history: Seq<Call<R>>) -> Seq<(Event, R)>
    decreases history.len(),
{
    if history.len() == 0 {
        Seq::empty()
    } else {
        taken(history.drop_last()) + history.last().brought()
    }
}

/// The items of the batches that the calls of `history` gave, in their order.
pub open spec fn handed<R>(history: Seq<Call<R>>) -> Seq<(Event, R)>
    decreases history.len(),
{
    if history.len() == 0 {
        Seq::empty()
    } else {
        handed(history.drop_last()) + items(history.last().batch())
    }
}

proof fn lemma_history<R>(
    batch_size: usize,
    flush_interval: u64,
    states: Seq<Worker<R>>,
    history: Seq<Call<R>>,
)
    requires
        states.len() == history.len() + 1,
        call_ensures(Worker::<R>::new, (batch_size, flush_interval), states[0]),
        forall|k: int|
            0 <= k < history.len() ==> ((#[trigger] history[k]) matches Call::Receive {
                request,
                now,
                batch,
            } ==> exists|worker: &mut Worker<R>|
                *worker == states[k] && *final(worker) == states[k + 1]
                    && #[trigger] call_ensures(
                    Worker::<R>::receive,
                    (worker, request, now),
                    batch,
                )),
        forall|k: int|
            0 <= k < history.len() ==> ((#[trigger] history[k]) matches Call::DeadlineReached {
                batch,
            } ==> exists|worker: &mut Worker<R>|
                *worker == states[k] && *final(worker) == states[k + 1]
                    && #[trigger] call_ensures(
                    Worker::<R>::deadline_reached,
                    (worker,),
                    batch,
                )),
    ensures
        states.last()@.batch_size == batch_size,
        taken(history) == handed(history) + asked(states.last()@.buffer),
        states.last()@.buffer.len() < batch_size || states.last()@.buffer.len() == 0,
        history.len() > 0 && history.last() is DeadlineReached ==> states.last()@.buffer.len()
            == 0,
    decreases history.len(),
{
    let worker = states.last();
    if history.len() == 0 {
        assert(taken(history) =~= handed(history) + asked(worker@.buffer));
    } else {
        let last = history.len() - 1;
        let rest = history.drop_last();
        let earlier_states = states.drop_last();
        assert forall|k: int| 0 <= k < rest.len() implies ((#[trigger] rest[k]) matches
            Call::Receive { request, now, batch } ==> exists|worker: &mut Worker<R>|
            *worker == earlier_states[k] && *final(worker) == earlier_states[k + 1]
                && #[trigger] call_ensures(
                Worker::<R>::receive,
                (worker, request, now),
                batch,
            )) by {
            assert(history[k] == rest[k]);
        }
        assert forall|k: int| 0 <= k < rest.len() implies ((#[trigger] rest[k]) matches
            Call::DeadlineReached { batch } ==> exists|worker: &mut Worker<R>|
            *worker == earlier_states[k] && *final(worker) == earlier_states[k + 1]
                && #[trigger] call_ensures(
                Worker::<R>::deadline_reached,
                (worker,),
                batch,
            )) by {
            assert(history[k] == rest[k]);
        }
        lemma_history(batch_size, flush_interval, earlier_states, rest);
        let before = states[last];
        let call = history[last];
        assert(earlier_states.last() == before);
        assert(asked(before@.buffer) + call.brought() =~= items(call.batch()) + asked(
            worker@.buffer,
        ));
        let earlier = handed(rest);
        assert(earlier + asked(before@.buffer) + call.brought() =~= earlier + (asked(
            before@.buffer,
        ) + call.brought()));
        assert(earlier + items(call.batch()) + asked(worker@.buffer) =~= earlier + (items(
            call.batch(),
        ) + asked(worker@.buffer)));
    }
}

/// A new worker that goes through some calls hands over what it took, in the order in which it came,
/// and holds back less than a batch. When its deadline passes it holds back nothing.
pub proof fn law_worker_hands_over_what_it_took<R>(
    batch_size: usize,
    flush_interval: u64,
    states: Seq<Worker<R>>,
    history: Seq<Call<R>>,
)
    requires
        states.len() == history.len() + 1,
        call_ensures(Worker::<R>::new, (batch_size, flush_interval), states[0]),
        forall|k: int|
            0 <= k < history.len() ==> ((#[trigger] history[k]) matches Call::Receive {
                request,
                now,
                batch,
            } ==> exists|worker: &mut Worker<R>|
                *worker == states[k] && *final(worker) == states[k + 1]
                    && #[trigger] call_ensures(
                    Worker::<R>::receive,
                    (worker, request, now),
                    batch,
                )),
        forall|k: int|
            0 <= k < history.len() ==> ((#[trigger] history[k]) matches Call::DeadlineReached {
                batch,
            } ==> exists|worker: &mut Worker<R>|
                *worker == states[k] && *final(worker) == states[k + 1]
                    && #[trigger] call_ensures(
                    Worker::<R>::deadline_reached,
                    (worker,),
                    batch,
                )),
    ensures
        handed(history).len() <= taken(history).len(),
        handed(history) == taken(history).take(handed(history).len() as int),
        taken(history).len() - handed(history).len() < batch_size || taken(history).len()
            == handed(history).len(),
        history.len() > 0 && history.last() is DeadlineReached ==> handed(history) == taken(
            history,
        ),
{
    lemma_history(batch_size, flush_interval, states, history);
    assert(handed(history) =~= taken(history).take(handed(history).len() as int));
    if states.last()@.buffer.len() == 0 {
        assert(handed(history) =~= taken(history));
    }
}

/// A call of a draining worker, and what it gave.
pub struct DrainCall<R> {
    pub request: PersistRequest<R>,
    pub batch: Option<Batch<R>>,
}

/// The items that were still queued when a worker was told to stop, in their order.
pub open spec fn queued<R>(drain: Seq<DrainCall<R>>) -> Seq<(Event, R)> {
    Seq::new(drain.len(), |k: int| (drain[k].request.event, drain[k].request.reply_to))
}

/// The items of the batches that a draining worker gave, in their order.
pub open spec fn handed_draining<R>(drain: Seq<DrainCall<R>>) -> Seq<(Event, R)>
    decreases drain.len(),
{
    if drain.len() == 0 {
        Seq::empty()
    } else {
        handed_draining(drain.drop_last()) + items(drain.last().batch)
    }
}

proof fn lemma_drained<R>(drains: Seq<DrainingWorker<R>>, drain: Seq<DrainCall<R>>)
    requires
        drains.len() == drain.len() + 1,
        forall|k: int|
            0 <= k < drain.len() ==> ((#[trigger] drain[k]) matches DrainCall { request, batch }
                ==> exists|worker: &mut DrainingWorker<R>|
                *worker == drains[k] && *final(worker) == drains[k + 1]
                    && #[trigger] call_ensures(
                    DrainingWorker::<R>::receive,
                    (worker, request),
                    batch,
                )),
    ensures
        asked(drains[0]@) + queued(drain) == handed_draining(drain) + asked(drains.last()@),
    decreases drain.len(),
{
    let worker = drains.last();
    let start = drains[0];
    if drain.len() == 0 {
        assert(asked(start@) + queued(drain) =~= handed_draining(drain) + asked(worker@));
    } else {
        let last = drain.len() - 1;
        let rest = drain.drop_last();
        let earlier_drains = drains.drop_last();
        assert forall|k: int| 0 <= k < rest.len() implies ((#[trigger] rest[k]) matches
            DrainCall { request, batch } ==> exists|worker: &mut DrainingWorker<R>|
            *worker == earlier_drains[k] && *final(worker) == earlier_drains[k + 1]
                && #[trigger] call_ensures(
                DrainingWorker::<R>::receive,
                (worker, request),
                batch,
            )) by {
            assert(drain[k] == rest[k]);
        }
        lemma_drained(earlier_drains, rest);
        let before = drains[last];
        let call = drain[last];
        let one = seq![(call.request.event, call.request.reply_to)];
        let earlier = handed_draining(rest);
        assert(queued(drain) =~= queued(rest) + one);
        assert(asked(before@) + one =~= items(call.batch) + asked(worker@));
        assert(asked(start@) + queued(drain) =~= asked(start@) + queued(rest) + one);
        assert(earlier + asked(before@) + one =~= earlier + (asked(before@) + one));
        assert(earlier + (items(call.batch) + asked(worker@)) =~= earlier + items(call.batch)
            + asked(worker@));
    }
}

/// From its first call to its last batch a worker hands over exactly the items that it took while it
/// ran and those that were still queued when it was told to stop, in the order in which they came.
pub proof fn law_worker_hands_over_everything<R>(
    batch_size: usize,
    flush_interval: u64,
    states: Seq<Worker<R>>,
    history: Seq<Call<R>>,
    drains: Seq<DrainingWorker<R>>,
    drain: Seq<DrainCall<R>>,
    last: Option<Batch<R>>,
)
    requires
        states.len() == history.len() + 1,
        call_ensures(Worker::<R>::new, (batch_size, flush_interval), states[0]),
        forall|k: int|
            0 <= k < history.len() ==> ((#[trigger] history[k]) matches Call::Receive {
                request,
                now,
                batch,
            } ==> exists|worker: &mut Worker<R>|
                *worker == states[k] && *final(worker) == states[k + 1]
                    && #[trigger] call_ensures(
                    Worker::<R>::receive,
                    (worker, request, now),
                    batch,
                )),
        forall|k: int|
            0 <= k < history.len() ==> ((#[trigger] history[k]) matches Call::DeadlineReached {
                batch,
            } ==> exists|worker: &mut Worker<R>|
                *worker == states[k] && *final(worker) == states[k + 1]
                    && #[trigger] call_ensures(
                    Worker::<R>::deadline_reached,
                    (worker,),
                    batch,
                )),
        call_ensures(Worker::<R>::cancel, (states.last(),), drains[0]),
        drains.len() == drain.len() + 1,
        forall|k: int|
            0 <= k < drain.len() ==> ((#[trigger] drain[k]) matches DrainCall { request, batch }
                ==> exists|worker: &mut DrainingWorker<R>|
                *worker == drains[k] && *final(worker) == drains[k + 1]
                    && #[trigger] call_ensures(
                    DrainingWorker::<R>::receive,
                    (worker, request),
                    batch,
                )),
        call_ensures(DrainingWorker::<R>::finish, (drains.last(),), last),
    ensures
        handed(history) + handed_draining(drain) + items(last) == taken(history) + queued(drain),
{
    lemma_history(batch_size, flush_interval, states, history);
    lemma_drained(drains, drain);
    let buffer = states.last()@.buffer;
    assert(items(last) =~= asked(drains.last()@));
    assert(handed(history) + handed_draining(drain) + items(last) =~= handed(history) + (
    handed_draining(drain) + asked(drains.last()@)));
    assert(handed(history) + (asked(buffer) + queued(drain)) =~= handed(history) + asked(buffer)
        + queued(drain));
}

/// A draining worker hands over its buffer when a request fills it, and keeps it otherwise.
pub proof fn law_draining_request_fills_or_waits<R>(
    draining: &mut DrainingWorker<R>,
    request: PersistRequest<R>,
    batch: Option<Batch<R>>,
)
    requires
        call_ensures(DrainingWorker::<R>::receive, (draining, request), batch),
    ensures
        final(draining).size() == old(draining).size(),
        items(batch) + asked(final(draining)@) == asked(old(draining)@).push(
            (request.event, request.reply_to),
        ),
        batch is Some <==> old(draining)@.len() + 1 >= old(draining).size(),
        batch is Some ==> final(draining)@.len() == 0,
{
    assert(items(batch) + asked(final(draining)@) =~= asked(old(draining)@).push(
        (request.event, request.reply_to),
    ));
}

/// Stopping a worker keeps what is buffered and the size of its batches.
pub proof fn law_stopping_keeps_the_buffer<R>(worker: Worker<R>, draining: DrainingWorker<R>)
    requires
        call_ensures(Worker::<R>::cancel, (worker,), draining),
    ensures
        draining@ == worker@.buffer,
        draining.size() == worker@.batch_size,
{
}

/// A batch has as many handles as events.
pub proof fn law_batch_pairs_events_and_handles<R>(
    worker: &mut Worker<R>,
    request: PersistRequest<R>,
    now: u64,
    batch: Batch<R>,
)
    requires
        call_ensures(Worker::<R>::receive, (worker, request, now), Some(batch)),
    ensures
        batch.events@.len() == batch.reply_tos@.len(),
        batch.events@.len() > 0,
{
}

/// Each sender of a batch is answered once and in the order of the batch: with the outcome at its
/// own place, with the error that the storage met, or, where the storage gave another number of
/// outcomes than there are events, with an error that tells both numbers.
pub proof fn law_each_sender_gets_its_own_answer<R>(
    reply_tos: Vec<R>,
    result: Result<Vec<EventOutcome>, StorageError>,
    replies: Vec<(R, Reply)>,
    i: int,
)
    requires
        call_ensures(batch_replies::<R>, (reply_tos, result), replies),
    ensures
        replies@.len() == reply_tos@.len(),
        0 <= i < reply_tos@.len() ==> replies@[i].0 == reply_tos@[i],
        0 <= i < reply_tos@.len() ==> match result {
            Err(error) => replies@[i].1 matches Err(told) && *told == error,
            Ok(outcomes) => if outcomes@.len() == reply_tos@.len() {
                replies@[i].1 == Ok::<EventOutcome, Arc<StorageError>>(outcomes@[i])
            } else {
                replies@[i].1 matches Err(told) && *told is ContractViolation
            },
        },
{
    if 0 <= i < reply_tos@.len() {
        assert(replies@[i].0 == reply_tos@[i]);
    }
}

/// The error of a wrong number of outcomes tells the number of outcomes, then that of the events.
pub proof fn law_wrong_number_is_told<R>(
    reply_tos: Vec<R>,
    outcomes: Vec<EventOutcome>,
    replies: Vec<(R, Reply)>,
    i: int,
)
    requires
        call_ensures(batch_replies::<R>, (reply_tos, Ok(outcomes)), replies),
        0 <= i < reply_tos@.len(),
        outcomes@.len() != reply_tos@.len(),
    ensures
        exists|given: Seq<char>, expected: Seq<char>|
            {
                &&& #[trigger] number_read(given) == outcomes@.len()
                &&& #[trigger] number_read(expected) == reply_tos@.len()
                &&& replies@[i].1 matches Err(told) && *told matches
                    StorageError::ContractViolation(text) && text@ == given
                    + " outcomes for "@ + expected + " events"@
            },
{
    assert(replies@[i].0 == reply_tos@[i]);
    crate::text::lemma_decimal_reads_back(outcomes@.len());
    crate::text::lemma_decimal_reads_back(reply_tos@.len());
}

/// A sender is told what became of its request, and different ends are told apart.
pub proof fn law_sender_is_told_what_happened(
    delivery: Delivery,
    result: Result<EventOutcome, EventSendError>,
)
    requires
        call_ensures(send_event, (delivery,), result),
    ensures
        delivery is Refused <==> result == Err::<EventOutcome, EventSendError>(
            EventSendError::QueueClosed,
        ),
        delivery is Dropped <==> result == Err::<EventOutcome, EventSendError>(
            EventSendError::WorkerDropped,
        ),
        delivery matches Delivery::Answered(Ok(outcome)) ==> result == Ok::<
            EventOutcome,
            EventSendError,
        >(outcome),
        result matches Ok(outcome) ==> delivery == Delivery::Answered(Ok(outcome)),
        delivery matches Delivery::Answered(Err(error)) ==> result == Err::<
            EventOutcome,
            EventSendError,
        >(EventSendError::Storage(error)),
{
}

/// A new queue makes batches of the given size and lets a request wait for 50 milliseconds.
pub proof fn law_queue_waits_fifty_milliseconds<H, R>(
    batch_size: usize,
    queue: BoundedQueue<H>,
    worker: Worker<R>,
)
    requires
        call_ensures(BoundedQueue::<H>::new::<R>, (batch_size,), (queue, worker)),
    ensures
        queue@ is None,
        worker@.batch_size == batch_size,
        worker@.flush_interval == 50 * 1000 * 1000,
        worker@.flush_deadline is None,
        worker@.buffer.len() == 0,
{
}

/// The worker that was spawned is waited for by the first shutdown and by no later one, and it is
/// told to stop unless it was before.
pub proof fn law_worker_is_waited_for_once<H>(
    queue: &mut BoundedQueue<H>,
    handle: H,
    stopped: &mut BoundedQueue<H>,
    is_cancelled: bool,
    first: Shutdown<H>,
    again: &mut BoundedQueue<H>,
    was_cancelled: bool,
    second: Shutdown<H>,
)
    requires
        call_ensures(BoundedQueue::<H>::spawn, (queue, handle), ()),
        *stopped == *final(queue),
        call_ensures(BoundedQueue::<H>::shutdown, (stopped, is_cancelled), first),
        *again == *final(stopped),
        call_ensures(BoundedQueue::<H>::shutdown, (again, was_cancelled), second),
    ensures
        first.join == Some(handle),
        first.cancel <==> !is_cancelled,
        second.join is None,
        second.cancel <==> !was_cancelled,
{
}

} // verus!
