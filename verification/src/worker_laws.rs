//! What holds of a worker over its whole life: from its first request, through the order to stop,
//! to its last batch.

use crate::domain::EventView;
use crate::pipeline::{
    answers, drain_receive, worker_deadline, worker_receive, Batch, PersistRequest, Reply,
    WorkerView,
};
use crate::storage::{
    event_views, law_batches_compose, outcomes, store_all, EventOutcome, StorageError, Table,
};
use std::sync::Arc;
use vstd::prelude::*;

verus! {

/// What a running worker meets.
pub enum WorkerInput<R> {
    Request { request: PersistRequest<R>, now: u64 },
    DeadlineReached,
}

/// The requests among `inputs`, in their order.
pub open spec fn requests_of<R>(inputs: Seq<WorkerInput<R>>) -> Seq<PersistRequest<R>>
    decreases inputs.len(),
{
    if inputs.len() == 0 {
        Seq::empty()
    } else {
        match inputs.last() {
            WorkerInput::Request { request, now } => requests_of(inputs.drop_last()).push(request),
            WorkerInput::DeadlineReached => requests_of(inputs.drop_last()),
        }
    }
}

/// Adds what was flushed to the batches so far, unless it is nothing.
pub open spec fn add_batch<R>(
    batches: Seq<Seq<PersistRequest<R>>>,
    flushed: Seq<PersistRequest<R>>,
) -> Seq<Seq<PersistRequest<R>>> {
    if flushed.len() == 0 {
        batches
    } else {
        batches.push(flushed)
    }
}

/// A worker before its first request.
pub open spec fn idle<R>(batch_size: nat, flush_interval: u64) -> WorkerView<R> {
    WorkerView { batch_size, flush_interval, flush_deadline: None, buffer: Seq::empty() }
}

/// What one input makes of a running worker, and what is flushed.
pub open spec fn step<R>(state: WorkerView<R>, input: WorkerInput<R>) -> (
    WorkerView<R>,
    Seq<PersistRequest<R>>,
) {
    match input {
        WorkerInput::Request { request, now } => worker_receive(state, request, now),
        WorkerInput::DeadlineReached => worker_deadline(state),
    }
}

/// A worker that runs through `inputs`: its state after them, and the batches that it flushed.
pub open spec fn run<R>(start: WorkerView<R>, inputs: Seq<WorkerInput<R>>) -> (
    WorkerView<R>,
    Seq<Seq<PersistRequest<R>>>,
)
    decreases inputs.len(),
{
    if inputs.len() == 0 {
        (start, Seq::empty())
    } else {
        let (state, batches) = run(start, inputs.drop_last());
        let (after, flushed) = step(state, inputs.last());
        (after, add_batch(batches, flushed))
    }
}

/// A worker that drains `queued`: its buffer after them, and the batches that it flushed.
pub open spec fn drain<R>(
    batch_size: nat,
    buffer: Seq<PersistRequest<R>>,
    queued: Seq<PersistRequest<R>>,
) -> (Seq<PersistRequest<R>>, Seq<Seq<PersistRequest<R>>>)
    decreases queued.len(),
{
    if queued.len() == 0 {
        (buffer, Seq::empty())
    } else {
        let (before, batches) = drain(batch_size, buffer, queued.drop_last());
        let (after, flushed) = drain_receive(batch_size, before, queued.last());
        (after, add_batch(batches, flushed))
    }
}

/// All batches of a worker that runs through `inputs`, is told to stop, and drains `queued`.
pub open spec fn lifetime<R>(
    batch_size: nat,
    flush_interval: u64,
    inputs: Seq<WorkerInput<R>>,
    queued: Seq<PersistRequest<R>>,
) -> Seq<Seq<PersistRequest<R>>> {
    let (state, running) = run(idle(batch_size, flush_interval), inputs);
    let (buffer, draining) = drain(batch_size, state.buffer, queued);
    add_batch(running + draining, buffer)
}

/// The items of all batches, one batch after the other.
pub open spec fn concat<A>(batches: Seq<Seq<A>>) -> Seq<A>
    decreases batches.len(),
{
    if batches.len() == 0 {
        Seq::empty()
    } else {
        concat(batches.drop_last()) + batches.last()
    }
}

proof fn lemma_concat_add<R>(
    batches: Seq<Seq<PersistRequest<R>>>,
    flushed: Seq<PersistRequest<R>>,
)
    ensures
        concat(add_batch(batches, flushed)) == concat(batches) + flushed,
{
    if flushed.len() == 0 {
        assert(concat(batches) + flushed =~= concat(batches));
    } else {
        assert(batches.push(flushed).drop_last() =~= batches);
    }
}

proof fn lemma_concat_append<R>(
    a: Seq<Seq<PersistRequest<R>>>,
    b: Seq<Seq<PersistRequest<R>>>,
)
    ensures
        concat(a + b) == concat(a) + concat(b),
    decreases b.len(),
{
    if b.len() == 0 {
        assert(a + b =~= a);
        assert(concat(a) + concat(b) =~= concat(a));
    } else {
        assert((a + b).drop_last() =~= a + b.drop_last());
        lemma_concat_append(a, b.drop_last());
        assert(concat(a) + concat(b.drop_last()) + b.last() =~= concat(a) + (concat(
            b.drop_last(),
        ) + b.last()));
    }
}

/// While a worker runs, every request it took is in a batch or in the buffer, in the order in
/// which they came.
pub proof fn law_running_keeps_requests<R>(
    batch_size: nat,
    flush_interval: u64,
    inputs: Seq<WorkerInput<R>>,
)
    ensures
        ({
            let (state, batches) = run(idle(batch_size, flush_interval), inputs);
            concat(batches) + state.buffer == requests_of(inputs)
        }),
    decreases inputs.len(),
{
    let start = idle::<R>(batch_size, flush_interval);
    if inputs.len() > 0 {
        law_running_keeps_requests(batch_size, flush_interval, inputs.drop_last());
        let (state, batches) = run(start, inputs.drop_last());
        let (after, flushed) = step(state, inputs.last());
        lemma_concat_add(batches, flushed);
        assert(concat(batches) + flushed + after.buffer =~= requests_of(inputs));
    } else {
        let (state, batches) = run(start, inputs);
        assert(concat(batches) + state.buffer =~= requests_of(inputs));
    }
}

proof fn lemma_drain_keeps_requests<R>(
    batch_size: nat,
    buffer: Seq<PersistRequest<R>>,
    queued: Seq<PersistRequest<R>>,
)
    ensures
        ({
            let (after, batches) = drain(batch_size, buffer, queued);
            concat(batches) + after == buffer + queued
        }),
    decreases queued.len(),
{
    if queued.len() > 0 {
        lemma_drain_keeps_requests(batch_size, buffer, queued.drop_last());
        let (before, batches) = drain(batch_size, buffer, queued.drop_last());
        let (after, flushed) = drain_receive(batch_size, before, queued.last());
        lemma_concat_add(batches, flushed);
        assert(before.push(queued.last()) =~= flushed + after);
        assert(concat(batches) + flushed + after =~= (concat(batches) + before).push(
            queued.last(),
        ));
        assert((buffer + queued.drop_last()).push(queued.last()) =~= buffer + queued);
    } else {
        let (after, batches) = drain(batch_size, buffer, queued);
        assert(concat(batches) + after =~= buffer + queued);
    }
}

/// No accepted request is lost or reordered: when a worker has finished, its batches hold exactly
/// the requests that it took while it ran and those that were still queued when it was told to
/// stop, in the order in which they came.
pub proof fn law_no_request_is_lost<R>(
    batch_size: nat,
    flush_interval: u64,
    inputs: Seq<WorkerInput<R>>,
    queued: Seq<PersistRequest<R>>,
)
    ensures
        concat(lifetime(batch_size, flush_interval, inputs, queued)) == requests_of(inputs)
            + queued,
{
    let (state, running) = run(idle(batch_size, flush_interval), inputs);
    let (buffer, draining) = drain(batch_size, state.buffer, queued);
    law_running_keeps_requests(batch_size, flush_interval, inputs);
    lemma_drain_keeps_requests(batch_size, state.buffer, queued);
    lemma_concat_append(running, draining);
    lemma_concat_add(running + draining, buffer);
    assert(concat(running) + concat(draining) + buffer =~= concat(running) + (concat(draining)
        + buffer));
    assert(concat(running) + (state.buffer + queued) =~= (concat(running) + state.buffer)
        + queued);
}

/// Whether a batch holds something, and no more than `batch_size` requests, or one if `batch_size`
/// is zero.
pub open spec fn proper_batch<R>(batch_size: nat, batch: Seq<PersistRequest<R>>) -> bool {
    &&& 0 < batch.len()
    &&& batch.len() <= batch_size || batch.len() == 1
}

/// Whether fewer requests are buffered than make a batch.
pub open spec fn below_batch<R>(batch_size: nat, buffer: Seq<PersistRequest<R>>) -> bool {
    buffer.len() < batch_size || buffer.len() == 0
}

proof fn lemma_run_bounds<R>(batch_size: nat, flush_interval: u64, inputs: Seq<WorkerInput<R>>)
    ensures
        ({
            let (state, batches) = run(idle(batch_size, flush_interval), inputs);
            &&& state.batch_size == batch_size
            &&& state.flush_interval == flush_interval
            &&& below_batch(batch_size, state.buffer)
            &&& forall|k: int|
                0 <= k < batches.len() ==> proper_batch(batch_size, #[trigger] batches[k])
        }),
    decreases inputs.len(),
{
    if inputs.len() > 0 {
        lemma_run_bounds(batch_size, flush_interval, inputs.drop_last());
    }
}

proof fn lemma_drain_bounds<R>(
    batch_size: nat,
    buffer: Seq<PersistRequest<R>>,
    queued: Seq<PersistRequest<R>>,
)
    requires
        below_batch(batch_size, buffer),
    ensures
        ({
            let (after, batches) = drain(batch_size, buffer, queued);
            &&& below_batch(batch_size, after)
            &&& forall|k: int|
                0 <= k < batches.len() ==> proper_batch(batch_size, #[trigger] batches[k])
        }),
    decreases queued.len(),
{
    if queued.len() > 0 {
        lemma_drain_bounds(batch_size, buffer, queued.drop_last());
    }
}

/// No batch is empty, and none is larger than the batch size.
pub proof fn law_batches_are_bounded<R>(
    batch_size: nat,
    flush_interval: u64,
    inputs: Seq<WorkerInput<R>>,
    queued: Seq<PersistRequest<R>>,
    k: int,
)
    requires
        0 <= k < lifetime(batch_size, flush_interval, inputs, queued).len(),
    ensures
        proper_batch(batch_size, lifetime(batch_size, flush_interval, inputs, queued)[k]),
{
    let (state, running) = run(idle(batch_size, flush_interval), inputs);
    lemma_run_bounds(batch_size, flush_interval, inputs);
    lemma_drain_bounds(batch_size, state.buffer, queued);
}

/// While a worker runs, a deadline is set exactly when something is buffered, and it is the flush
/// interval after the time at which the oldest buffered request came.
pub proof fn law_deadline_follows_oldest_request<R>(
    batch_size: nat,
    flush_interval: u64,
    inputs: Seq<WorkerInput<R>>,
)
    requires
        forall|k: int|
            0 <= k < inputs.len() ==> ((#[trigger] inputs[k]) matches WorkerInput::Request {
                request,
                now,
            } ==> now + flush_interval <= u64::MAX),
    ensures
        ({
            let state = run(idle(batch_size, flush_interval), inputs).0;
            &&& state.flush_deadline is Some <==> state.buffer.len() > 0
            &&& state.buffer.len() > 0 ==> exists|k: int|
                0 <= k < inputs.len() && requests_of(inputs.take(k + 1)).len()
                    == requests_of(inputs).len() - state.buffer.len() + 1 && (
                #[trigger] inputs[k] matches WorkerInput::Request { request, now } && request
                    == state.buffer[0] && state.flush_deadline->0 == now + flush_interval)
        }),
    decreases inputs.len(),
{
    let start = idle::<R>(batch_size, flush_interval);
    if inputs.len() > 0 {
        let rest = inputs.drop_last();
        let last = inputs.len() - 1;
        assert forall|k: int| 0 <= k < rest.len() implies ((
        #[trigger] rest[k]) matches WorkerInput::Request { request, now } ==> now + flush_interval
            <= u64::MAX) by {
            assert(rest[k] == inputs[k]);
        }
        law_deadline_follows_oldest_request(batch_size, flush_interval, rest);
        lemma_run_bounds(batch_size, flush_interval, rest);
        let before = run(start, rest).0;
        let state = run(start, inputs).0;
        if state.buffer.len() > 0 {
            assert(inputs[last] is Request);
            if before.buffer.len() == 0 {
                assert(inputs.take(last + 1) =~= inputs);
                assert(inputs[last] matches WorkerInput::Request { request, now } && request
                    == state.buffer[0] && state.flush_deadline->0 == now + flush_interval);
            } else {
                let k = choose|k: int|
                    0 <= k < rest.len() && requests_of(rest.take(k + 1)).len() == requests_of(
                        rest,
                    ).len() - before.buffer.len() + 1 && (
                    #[trigger] rest[k] matches WorkerInput::Request { request, now } && request
                        == before.buffer[0] && before.flush_deadline->0 == now + flush_interval);
                assert(rest.take(k + 1) =~= inputs.take(k + 1));
                assert(inputs[k] == rest[k]);
            }
        }
    }
}

/// The events of some requests.
pub open spec fn request_events<R>(requests: Seq<PersistRequest<R>>) -> Seq<EventView> {
    Seq::new(requests.len(), |i: int| requests[i].event@)
}

/// The table after all batches were stored, one after the other.
pub open spec fn store_batches<R>(table: Table, batches: Seq<Seq<PersistRequest<R>>>) -> Table
    decreases batches.len(),
{
    if batches.len() == 0 {
        table
    } else {
        store_all(store_batches(table, batches.drop_last()), request_events(batches.last()))
    }
}

/// The outcomes of all batches, one after the other.
pub open spec fn batch_outcomes<R>(table: Table, batches: Seq<Seq<PersistRequest<R>>>) -> Seq<
    EventOutcome,
>
    decreases batches.len(),
{
    if batches.len() == 0 {
        Seq::empty()
    } else {
        batch_outcomes(table, batches.drop_last()) + outcomes(
            store_batches(table, batches.drop_last()),
            request_events(batches.last()),
        )
    }
}

/// Where events are cut into batches does not show: the records and the outcomes are those of
/// storing the events one after the other.
pub proof fn law_batching_does_not_show<R>(table: Table, batches: Seq<Seq<PersistRequest<R>>>)
    ensures
        store_batches(table, batches) == store_all(table, request_events(concat(batches))),
        batch_outcomes(table, batches) == outcomes(table, request_events(concat(batches))),
    decreases batches.len(),
{
    if batches.len() == 0 {
        assert(batch_outcomes(table, batches) =~= outcomes(
            table,
            request_events(concat(batches)),
        ));
    } else {
        let rest = batches.drop_last();
        law_batching_does_not_show(table, rest);
        law_batches_compose(table, request_events(concat(rest)), request_events(batches.last()));
        assert(request_events(concat(rest)) + request_events(batches.last()) =~= request_events(
            concat(batches),
        ));
    }
}

/// Graceful shutdown: when a worker has finished, the storage holds what it would hold had every
/// accepted event been stored by itself, in the order of acceptance.
pub proof fn law_shutdown_stores_accepted_events<R>(
    table: Table,
    batch_size: nat,
    flush_interval: u64,
    inputs: Seq<WorkerInput<R>>,
    queued: Seq<PersistRequest<R>>,
)
    ensures
        store_batches(table, lifetime(batch_size, flush_interval, inputs, queued)) == store_all(
            table,
            request_events(requests_of(inputs) + queued),
        ),
        batch_outcomes(table, lifetime(batch_size, flush_interval, inputs, queued)) == outcomes(
            table,
            request_events(requests_of(inputs) + queued),
        ),
{
    law_no_request_is_lost(batch_size, flush_interval, inputs, queued);
    law_batching_does_not_show(table, lifetime(batch_size, flush_interval, inputs, queued));
}

/// Whether `replies` answer a batch made of `requests`, given the result of storing it: every
/// request once, by its own handle, in their order.
pub open spec fn answers_batch<R>(
    requests: Seq<PersistRequest<R>>,
    result: Result<Vec<EventOutcome>, StorageError>,
    replies: Seq<(R, Reply)>,
) -> bool {
    &&& replies.len() == requests.len()
    &&& forall|i: int|
        0 <= i < requests.len() ==> (#[trigger] replies[i]).0 == requests[i].reply_to && answers(
            replies[i].1,
            result,
            requests.len(),
            i,
        )
}

/// Every sender is answered with the outcome of its own event, or with the error that its batch
/// met.
pub proof fn law_reply_belongs_to_request<R>(
    requests: Seq<PersistRequest<R>>,
    batch: Batch<R>,
    table: Table,
    result: Result<Vec<EventOutcome>, StorageError>,
    replies: Seq<(R, Reply)>,
    i: int,
)
    requires
        batch.holds(requests),
        result matches Ok(given) ==> given@ == outcomes(table, event_views(batch.events@)),
        replies.len() == batch.reply_tos@.len(),
        forall|k: int|
            0 <= k < replies.len() ==> (#[trigger] replies[k]).0 == batch.reply_tos@[k] && answers(
                replies[k].1,
                result,
                replies.len(),
                k,
            ),
        0 <= i < requests.len(),
    ensures
        answers_batch(requests, result, replies),
        replies[i].0 == requests[i].reply_to,
        match result {
            Ok(_) => replies[i].1 == Ok::<EventOutcome, Arc<StorageError>>(
                outcomes(table, request_events(requests))[i],
            ),
            Err(error) => replies[i].1 matches Err(shared) && *shared == error,
        },
{
    assert(event_views(batch.events@) =~= request_events(requests));
    assert(replies[i].0 == batch.reply_tos@[i]);
}

/// The handles of some requests.
pub open spec fn handles<R>(requests: Seq<PersistRequest<R>>) -> Seq<R> {
    Seq::new(requests.len(), |i: int| requests[i].reply_to)
}

/// The handles by which some replies are given.
pub open spec fn replied<R>(replies: Seq<(R, Reply)>) -> Seq<R> {
    Seq::new(replies.len(), |i: int| replies[i].0)
}

/// Whether `replies` answer all of `batches`, given the result of storing each.
pub open spec fn answers_all<R>(
    batches: Seq<Seq<PersistRequest<R>>>,
    results: Seq<Result<Vec<EventOutcome>, StorageError>>,
    replies: Seq<Seq<(R, Reply)>>,
) -> bool {
    &&& results.len() == batches.len()
    &&& replies.len() == batches.len()
    &&& forall|k: int|
        0 <= k < batches.len() ==> answers_batch(#[trigger] batches[k], results[k], replies[k])
}

proof fn lemma_answers_rest<R>(
    batches: Seq<Seq<PersistRequest<R>>>,
    results: Seq<Result<Vec<EventOutcome>, StorageError>>,
    replies: Seq<Seq<(R, Reply)>>,
)
    requires
        answers_all(batches, results, replies),
        batches.len() > 0,
    ensures
        answers_all(batches.drop_last(), results.drop_last(), replies.drop_last()),
        answers_batch(batches.last(), results.last(), replies.last()),
{
    let rest = batches.drop_last();
    assert forall|k: int| 0 <= k < rest.len() implies answers_batch(
        #[trigger] rest[k],
        results.drop_last()[k],
        replies.drop_last()[k],
    ) by {
        assert(rest[k] == batches[k]);
    }
    assert(batches.last() == batches[batches.len() - 1]);
}

proof fn lemma_replied_handles<R>(
    batches: Seq<Seq<PersistRequest<R>>>,
    results: Seq<Result<Vec<EventOutcome>, StorageError>>,
    replies: Seq<Seq<(R, Reply)>>,
)
    requires
        answers_all(batches, results, replies),
    ensures
        replied(concat(replies)) == handles(concat(batches)),
    decreases batches.len(),
{
    if batches.len() > 0 {
        lemma_answers_rest(batches, results, replies);
        lemma_replied_handles(batches.drop_last(), results.drop_last(), replies.drop_last());
        assert(replied(replies.last()) =~= handles(batches.last()));
        assert(replied(concat(replies)) =~= replied(concat(replies.drop_last())) + replied(
            replies.last(),
        ));
        assert(handles(concat(batches)) =~= handles(concat(batches.drop_last())) + handles(
            batches.last(),
        ));
    } else {
        assert(replied(concat(replies)) =~= handles(concat(batches)));
    }
}

/// Every accepted request is answered exactly once: over the whole life of a worker, and whatever
/// the storage makes of its batches, the handles that are answered are those of the requests that
/// it took while it ran and of those that were still queued when it was told to stop, in the order
/// in which they came.
pub proof fn law_every_request_is_answered_once<R>(
    batch_size: nat,
    flush_interval: u64,
    inputs: Seq<WorkerInput<R>>,
    queued: Seq<PersistRequest<R>>,
    results: Seq<Result<Vec<EventOutcome>, StorageError>>,
    replies: Seq<Seq<(R, Reply)>>,
)
    requires
        answers_all(lifetime(batch_size, flush_interval, inputs, queued), results, replies),
    ensures
        replied(concat(replies)) == handles(requests_of(inputs) + queued),
{
    law_no_request_is_lost(batch_size, flush_interval, inputs, queued);
    lemma_replied_handles(
        lifetime(batch_size, flush_interval, inputs, queued),
        results,
        replies,
    );
}

/// Whether every batch was stored, after those before it, with the outcomes that its events have.
pub open spec fn all_stored<R>(
    table: Table,
    batches: Seq<Seq<PersistRequest<R>>>,
    results: Seq<Result<Vec<EventOutcome>, StorageError>>,
) -> bool {
    &&& results.len() == batches.len()
    &&& forall|k: int|
        0 <= k < batches.len() ==> ((#[trigger] results[k]) matches Ok(given) && given@
            == outcomes(store_batches(table, batches.take(k)), request_events(batches[k])))
}

proof fn lemma_replies_are_outcomes<R>(
    table: Table,
    batches: Seq<Seq<PersistRequest<R>>>,
    results: Seq<Result<Vec<EventOutcome>, StorageError>>,
    replies: Seq<Seq<(R, Reply)>>,
)
    requires
        answers_all(batches, results, replies),
        all_stored(table, batches, results),
    ensures
        concat(replies).len() == batch_outcomes(table, batches).len(),
        forall|j: int|
            0 <= j < concat(replies).len() ==> (#[trigger] concat(replies)[j]).1 == Ok::<
                EventOutcome,
                Arc<StorageError>,
            >(batch_outcomes(table, batches)[j]),
    decreases batches.len(),
{
    if batches.len() > 0 {
        let rest = batches.drop_last();
        let last = batches.len() - 1;
        lemma_answers_rest(batches, results, replies);
        assert forall|k: int| 0 <= k < rest.len() implies ((
        #[trigger] results.drop_last()[k]) matches Ok(given) && given@ == outcomes(
            store_batches(table, rest.take(k)),
            request_events(rest[k]),
        )) by {
            assert(results[k] == results.drop_last()[k]);
            assert(rest.take(k) =~= batches.take(k));
        }
        lemma_replies_are_outcomes(table, rest, results.drop_last(), replies.drop_last());
        assert(results[last] is Ok);
        assert(batches.take(last) =~= rest);
        let before = concat(replies.drop_last());
        assert forall|j: int| 0 <= j < concat(replies).len() implies (
        #[trigger] concat(replies)[j]).1 == Ok::<EventOutcome, Arc<StorageError>>(
            batch_outcomes(table, batches)[j],
        ) by {
            if j < before.len() {
                assert(concat(replies)[j] == before[j]);
            } else {
                let i = j - before.len();
                assert(concat(replies)[j] == replies.last()[i]);
                assert(answers(replies.last()[i].1, results.last(), batches.last().len(), i));
            }
        }
    }
}

/// While the storage works, every sender learns what became of its own event: the replies of a
/// worker's whole life are, in the order of acceptance, the outcomes of storing every accepted
/// event by itself.
pub proof fn law_replies_are_the_outcomes<R>(
    table: Table,
    batch_size: nat,
    flush_interval: u64,
    inputs: Seq<WorkerInput<R>>,
    queued: Seq<PersistRequest<R>>,
    results: Seq<Result<Vec<EventOutcome>, StorageError>>,
    replies: Seq<Seq<(R, Reply)>>,
)
    requires
        answers_all(lifetime(batch_size, flush_interval, inputs, queued), results, replies),
        all_stored(table, lifetime(batch_size, flush_interval, inputs, queued), results),
    ensures
        ({
            let accepted = requests_of(inputs) + queued;
            concat(replies) == Seq::new(
                accepted.len(),
                |j: int|
                    (
                        accepted[j].reply_to,
                        Ok::<EventOutcome, Arc<StorageError>>(
                            outcomes(table, request_events(accepted))[j],
                        ),
                    ),
            )
        }),
{
    let batches = lifetime(batch_size, flush_interval, inputs, queued);
    let accepted = requests_of(inputs) + queued;
    law_every_request_is_answered_once(
        batch_size,
        flush_interval,
        inputs,
        queued,
        results,
        replies,
    );
    law_shutdown_stores_accepted_events(table, batch_size, flush_interval, inputs, queued);
    lemma_replies_are_outcomes(table, batches, results, replies);
    assert forall|j: int| 0 <= j < accepted.len() implies (#[trigger] concat(replies)[j]).0
        == accepted[j].reply_to by {
        assert(replied(concat(replies))[j] == handles(accepted)[j]);
    }
}

} // verus!
