//! Serving the buckets of a pass and matching what the backend returns to
//! the requests that wait for it.
//!
//! A batched backend call returns its lists in the order of the batch, and
//! position is the only key that ties a list to a request.  So the batch is
//! built in the bucket's order, and the list at place `i` goes to the request
//! at place `i`.  Every request of a pass gets exactly one [`Delivery`].

use crate::bucket::{
    grouped, lemma_arrival_order_kept, lemma_bucket_members, lemma_place, pending, place,
    sharing, views, Bucket, BucketView,
};
use crate::engine::{spec_answer, IndexEngineError};
use crate::index::error::IndexSearchError;
use crate::index::service::SearchService;
use crate::request::{IndexArguments, Reply};
use vstd::prelude::*;

verus! {

/// The outcome of one batched backend call.
pub type Outcome = Result<Vec<Vec<i64>>, IndexSearchError>;

/// What the worker hands back for one request: the caller's handle, and the
/// reply to complete it with.  Where there is no reply, the backend left the
/// request without an answer, and the handle is to be dropped as it is.
#[derive(Debug, PartialEq)]
pub struct Delivery<R> {
    pub sender: R,
    pub reply: Option<Reply>,
}

/// What serving the buckets of a pass gave.
pub struct Served<R> {
    /// One delivery per request, bucket by bucket.
    pub deliveries: Vec<Delivery<R>>,
    /// How many batched backend calls were made.
    pub batches: usize,
}

/// The embeddings of the requests of a bucket, in the bucket's order.
pub open spec fn embeddings_of<E, R>(requests: Seq<IndexArguments<E, R>>) -> Seq<E> {
    requests.map_values(|request: IndexArguments<E, R>| request.embedding)
}

/// What the request at place `i` of a bucket receives from the outcome of
/// the bucket's backend call: the list at its own place, the backend's
/// failure, or nothing where the backend returned too few lists.
pub open spec fn share_of(outcome: Outcome, i: int) -> Option<Reply> {
    match outcome {
        Ok(lists) => if 0 <= i < lists@.len() {
            Some(Ok(lists@[i]))
        } else {
            None
        },
        Err(error) => Some(Err(error)),
    }
}

/// The deliveries for the requests of one bucket, given the outcome of its
/// backend call: one per request, in the bucket's order.
pub open spec fn settled<E, R>(requests: Seq<IndexArguments<E, R>>, outcome: Outcome) -> Seq<
    Delivery<R>,
> {
    Seq::new(
        requests.len(),
        |i: int| Delivery { sender: requests[i].sender, reply: share_of(outcome, i) },
    )
}

/// The deliveries that leave every request without a reply, in the order of
/// the requests.
pub open spec fn unanswered<E, R>(requests: Seq<IndexArguments<E, R>>) -> Seq<Delivery<R>> {
    Seq::new(
        requests.len(),
        |i: int| Delivery { sender: requests[i].sender, reply: None::<Reply> },
    )
}

/// The deliveries of a pass, given for each bucket the outcome of its
/// backend call: the deliveries of the first bucket, then those of the
/// second, and so on.
pub open spec fn served<E, R>(buckets: Seq<BucketView<E, R>>, outcomes: Seq<Outcome>) -> Seq<
    Delivery<R>,
> {
    Seq::new(buckets.len(), |i: int| settled(buckets[i].requests, outcomes[i])).flatten()
}

/// The predicate "holds at least one request".
pub open spec fn is_occupied<E, R>() -> spec_fn(BucketView<E, R>) -> bool {
    |bucket: BucketView<E, R>| bucket.requests.len() > 0
}

/// The number of buckets that hold at least one request.
pub open spec fn occupied<E, R>(buckets: Seq<BucketView<E, R>>) -> nat {
    buckets.filter(is_occupied()).len()
}

/// Reverses a vector.
fn reversed<T>(items: Vec<T>) -> (turned: Vec<T>)
    ensures
        turned@ == items@.reverse(),
{
    let mut items = items;
    let mut turned: Vec<T> = Vec::new();
    let ghost whole = items@;
    while items.len() > 0
        invariant
            items@.len() + turned@.len() == whole.len(),
            forall|i: int| 0 <= i < items@.len() ==> items@[i] == whole[i],
            forall|i: int| 0 <= i < turned@.len() ==> turned@[i] == whole[whole.len() - 1 - i],
        decreases items@.len(),
    {
        match items.pop() {
            Some(item) => {
                turned.push(item);
            },
            None => {},
        }
    }
    turned
}

/// Matches the outcome of a bucket's backend call to the bucket's requests
/// by position.
///
/// Every request gets exactly one delivery.  Lists beyond the number of
/// requests are dropped; requests beyond the number of lists get no answer.
/// A failure of the call is delivered to every request of the bucket.
pub fn settle<E, R>(requests: Vec<IndexArguments<E, R>>, outcome: Outcome) -> (deliveries: Vec<
    Delivery<R>,
>)
    ensures
        deliveries@ == settled(requests@, outcome),
{
    let mut deliveries: Vec<Delivery<R>> = Vec::new();
    match outcome {
        Ok(lists) => {
            let mut rest = reversed(lists);
            for request in it: requests
                invariant
                    outcome == Ok::<Vec<Vec<i64>>, IndexSearchError>(lists),
                    deliveries@.len() == it.index(),
                    rest@.len() == if it.index() <= lists@.len() {
                        lists@.len() - it.index()
                    } else {
                        0
                    },
                    forall|j: int|
                        0 <= j < rest@.len() ==> rest@[j] == lists@[lists@.len() - 1 - j],
                    forall|j: int|
                        0 <= j < it.index() ==> deliveries@[j] == settled(requests@, outcome)[j],
            {
                let reply = match rest.pop() {
                    Some(list) => Some(Ok(list)),
                    None => None,
                };
                deliveries.push(Delivery { sender: request.sender, reply });
            }
        },
        Err(error) => {
            for request in it: requests
                invariant
                    outcome == Err::<Vec<Vec<i64>>, IndexSearchError>(error),
                    deliveries@.len() == it.index(),
                    forall|j: int|
                        0 <= j < it.index() ==> deliveries@[j] == settled(requests@, outcome)[j],
            {
                let reply = Some(Err(error.clone()));
                deliveries.push(Delivery { sender: request.sender, reply });
            }
        },
    }
    deliveries
}

/// Collects the embeddings of a bucket into the batch for the backend call.
pub fn embeddings<E: Copy, R>(requests: &Vec<IndexArguments<E, R>>) -> (batch: Vec<E>)
    ensures
        batch@ == embeddings_of(requests@),
{
    let mut batch: Vec<E> = Vec::new();
    let mut i: usize = 0;
    while i < requests.len()
        invariant
            i <= requests@.len(),
            batch@ == embeddings_of(requests@.take(i as int)),
        decreases requests@.len() - i,
    {
        batch.push(requests[i].embedding);
        i = i + 1;
    }
    batch
}

/// Serves the buckets of a pass: for each bucket that holds a request, in
/// order, one batched backend call with the bucket's embeddings and
/// neighbour count, whose outcome is matched to the bucket's requests by
/// position.  An empty bucket costs no call.
///
/// The backend decides the outcomes.  Whatever they are, the deliveries are
/// exactly those that [`served`] gives for them.
pub fn serve<E: Copy, R, S: SearchService<E>>(backend: &mut S, buckets: Vec<Bucket<E, R>>) -> (out:
    Served<R>)
    ensures
        out.batches == occupied(views(buckets@)),
        exists|outcomes: Seq<Outcome>|
            outcomes.len() == buckets@.len() && out.deliveries@ == #[trigger] served(
                views(buckets@),
                outcomes,
            ),
        out.deliveries@.len() == pending(views(buckets@)).len(),
        forall|i: int|
            0 <= i < out.deliveries@.len() ==> (#[trigger] out.deliveries@[i]).sender == pending(
                views(buckets@),
            )[i].sender,
{
    let mut deliveries: Vec<Delivery<R>> = Vec::new();
    let mut batches: usize = 0;
    let total = buckets.len();
    let ghost mut outcomes: Seq<Outcome> = Seq::empty();
    let ghost all = views(buckets@);
    for bucket in it: buckets
        invariant
            all == views(buckets@),
            outcomes.len() == it.index(),
            batches == occupied(all.take(it.index() as int)),
            batches <= it.index() <= buckets@.len() == total,
            deliveries@ == served(all.take(it.index() as int), outcomes),
    {
        let ghost done = it.index() as int;
        let ghost earlier = outcomes;
        proof {
            assert(all.take(done).push(bucket@) =~= all.take(done + 1));
            all.take(done).lemma_filter_push(bucket@, is_occupied());
        }
        if bucket.requests.len() == 0 {
            proof {
                let unasked: Outcome = arbitrary();
                outcomes = outcomes.push(unasked);
                lemma_served_push(all.take(done), earlier, bucket@, unasked);
            }
        } else {
            let batch = embeddings(&bucket.requests);
            let outcome = backend.search_batch(batch.as_slice(), bucket.neighbors);
            batches = batches + 1;
            proof {
                outcomes = outcomes.push(outcome);
                lemma_served_push(all.take(done), earlier, bucket@, outcome);
            }
            let mut share = settle(bucket.requests, outcome);
            deliveries.append(&mut share);
        }
    }
    proof {
        assert(all.take(buckets@.len() as int) =~= all);
        lemma_one_delivery_each(all, outcomes);
    }
    Served { deliveries, batches }
}

/// Serving one more bucket appends its deliveries.
pub proof fn lemma_served_push<E, R>(
    buckets: Seq<BucketView<E, R>>,
    outcomes: Seq<Outcome>,
    bucket: BucketView<E, R>,
    outcome: Outcome,
)
    requires
        outcomes.len() == buckets.len(),
    ensures
        served(buckets.push(bucket), outcomes.push(outcome)) == served(buckets, outcomes) + settled(
            bucket.requests,
            outcome,
        ),
{
    let each = Seq::new(buckets.len(), |i: int| settled(buckets[i].requests, outcomes[i]));
    let more = Seq::new(
        buckets.push(bucket).len(),
        |i: int| settled(buckets.push(bucket)[i].requests, outcomes.push(outcome)[i]),
    );
    assert(more =~= each.push(settled(bucket.requests, outcome)));
    each.lemma_flatten_push(settled(bucket.requests, outcome));
}

/// The buckets that arrivals fall into each hold a request, so serving them
/// takes exactly one backend call per bucket.
pub proof fn lemma_one_call_per_bucket<E, R>(arrivals: Seq<IndexArguments<E, R>>)
    ensures
        occupied(grouped(arrivals)) == grouped(arrivals).len(),
{
    let buckets = grouped(arrivals);
    assert forall|at: int| 0 <= at < buckets.len() implies is_occupied()(#[trigger] buckets[at]) by {
        lemma_bucket_members(arrivals, at);
    }
    lemma_filter_keeps_all(buckets, is_occupied());
}

/// A filter drops nothing from a sequence whose items all pass it.
proof fn lemma_filter_keeps_all<A>(items: Seq<A>, keep: spec_fn(A) -> bool)
    requires
        forall|i: int| 0 <= i < items.len() ==> keep(#[trigger] items[i]),
    ensures
        items.filter(keep) == items,
    decreases items.len(),
{
    reveal(Seq::filter);
    if items.len() > 0 {
        lemma_filter_keeps_all(items.drop_last(), keep);
    }
}

/// A list the backend returned reaches its request unchanged, neither
/// padded nor cut: the request at place `i` of a bucket receives the list at
/// place `i` of the outcome, and that list is the answer its caller sees.
pub proof fn lemma_lists_pass_through<E, R>(
    requests: Seq<IndexArguments<E, R>>,
    lists: Vec<Vec<i64>>,
    i: int,
)
    requires
        0 <= i < requests.len(),
        i < lists@.len(),
    ensures
        settled(requests, Ok(lists))[i].sender == requests[i].sender,
        settled(requests, Ok(lists))[i].reply == Some(Ok::<Vec<i64>, IndexSearchError>(lists@[i])),
        spec_answer(settled(requests, Ok(lists))[i].reply) == Ok::<Vec<i64>, IndexEngineError>(
            lists@[i],
        ),
{
}

/// Where the backend returns no list longer than the neighbour count, no
/// caller sees more identifiers than it asked for.
pub proof fn lemma_never_more_than_asked<E, R>(
    requests: Seq<IndexArguments<E, R>>,
    lists: Vec<Vec<i64>>,
    neighbors: usize,
    i: int,
)
    requires
        0 <= i < requests.len(),
        forall|j: int| 0 <= j < lists@.len() ==> (#[trigger] lists@[j])@.len() <= neighbors,
    ensures
        spec_answer(settled(requests, Ok(lists))[i].reply) matches Ok(list) ==> list@.len()
            <= neighbors,
{
}

/// A failed backend call reaches every request of its bucket: each of them
/// receives that very failure, and its caller sees it as the failure of the
/// search.
pub proof fn lemma_failure_reaches_all<E, R>(
    requests: Seq<IndexArguments<E, R>>,
    error: IndexSearchError,
    i: int,
)
    requires
        0 <= i < requests.len(),
    ensures
        settled(requests, Err(error))[i].sender == requests[i].sender,
        settled(requests, Err(error))[i].reply == Some(Err::<Vec<i64>, IndexSearchError>(error)),
        spec_answer(settled(requests, Err(error))[i].reply) == Err::<Vec<i64>, IndexEngineError>(
            IndexEngineError::IndexSearchError(error),
        ),
{
}

/// A request for which the backend returned no list gets no reply, and its
/// caller sees that no answer was produced.
pub proof fn lemma_missing_list_no_answer<E, R>(
    requests: Seq<IndexArguments<E, R>>,
    lists: Vec<Vec<i64>>,
    i: int,
)
    requires
        lists@.len() <= i < requests.len(),
    ensures
        settled(requests, Ok(lists))[i].sender == requests[i].sender,
        settled(requests, Ok(lists))[i].reply == None::<Reply>,
        spec_answer(settled(requests, Ok(lists))[i].reply) == Err::<Vec<i64>, IndexEngineError>(
            IndexEngineError::NoNeighbors,
        ),
{
}

/// Two requests that ask for the same neighbour count and are drained in
/// the same pass receive their results in arrival order: where the backend
/// returned one list per request of their bucket, each receives the list at
/// its own place, and the place of the earlier request comes first.
pub proof fn lemma_results_follow_arrival<E, R>(
    arrivals: Seq<IndexArguments<E, R>>,
    lists: Vec<Vec<i64>>,
    i: int,
    j: int,
)
    requires
        0 <= i < j < arrivals.len(),
        arrivals[i].neighbors == arrivals[j].neighbors,
        lists@.len() == sharing(arrivals, arrivals[i].neighbors).len(),
    ensures
        ({
            let deliveries = settled(sharing(arrivals, arrivals[i].neighbors), Ok(lists));
            let first = place(arrivals, i);
            let second = place(arrivals, j);
            &&& 0 <= first < second < deliveries.len()
            &&& deliveries[first].sender == arrivals[i].sender
            &&& deliveries[first].reply == Some(Ok::<Vec<i64>, IndexSearchError>(lists@[first]))
            &&& deliveries[second].sender == arrivals[j].sender
            &&& deliveries[second].reply == Some(Ok::<Vec<i64>, IndexSearchError>(lists@[second]))
        }),
{
    lemma_place(arrivals, i);
    lemma_place(arrivals, j);
    lemma_arrival_order_kept(arrivals, i, j);
}

/// Every request of a pass gets exactly one delivery, in the order in which
/// the requests stand in the buckets, each on its own handle.
pub proof fn lemma_one_delivery_each<E, R>(buckets: Seq<BucketView<E, R>>, outcomes: Seq<Outcome>)
    requires
        outcomes.len() == buckets.len(),
    ensures
        served(buckets, outcomes).len() == pending(buckets).len(),
        forall|i: int|
            0 <= i < pending(buckets).len() ==> (#[trigger] served(buckets, outcomes)[i]).sender
                == pending(buckets)[i].sender,
    decreases buckets.len(),
{
    if buckets.len() == 0 {
    } else {
        let front = buckets.drop_last();
        let last = buckets.last();
        lemma_one_delivery_each(front, outcomes.drop_last());
        assert(buckets =~= front.push(last));
        assert(outcomes =~= outcomes.drop_last().push(outcomes.last()));
        lemma_served_push(front, outcomes.drop_last(), last, outcomes.last());
        let lists = front.map_values(|bucket: BucketView<E, R>| bucket.requests);
        assert(buckets.map_values(|bucket: BucketView<E, R>| bucket.requests) =~= lists.push(
            last.requests,
        ));
        lists.lemma_flatten_push(last.requests);
    }
}

} // verus!
