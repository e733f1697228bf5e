//! Grouping the requests of one drain pass by the neighbour count they ask
//! for.
//!
//! Requests that ask for the same number of neighbours can share one batched
//! backend call.  A [`BatchBuckets`] collects the requests of a pass as they
//! arrive and keeps one [`Bucket`] per neighbour count.  Buckets stand in the
//! order in which their first request arrived, and inside a bucket the
//! requests keep their arrival order: that order is the only key by which a
//! batched result is later matched to its request.

use crate::request::IndexArguments;
use std::collections::HashMap;
use vstd::prelude::*;

verus! {

/// The requests of one pass that ask for the same number of neighbours.
#[derive(Debug, PartialEq)]
pub struct Bucket<E, R> {
    pub neighbors: usize,
    pub requests: Vec<IndexArguments<E, R>>,
}

/// What a [`Bucket`] holds, as a mathematical value.
pub struct BucketView<E, R> {
    pub neighbors: usize,
    pub requests: Seq<IndexArguments<E, R>>,
}

impl<E, R> View for Bucket<E, R> {
    type V = BucketView<E, R>;

    open spec fn view(&self) -> BucketView<E, R> {
        BucketView { neighbors: self.neighbors, requests: self.requests@ }
    }
}

/// The views of a sequence of buckets.
pub open spec fn views<E, R>(buckets: Seq<Bucket<E, R>>) -> Seq<BucketView<E, R>> {
    buckets.map_values(|bucket: Bucket<E, R>| bucket@)
}

/// The predicate "asks for `neighbors` results".
pub open spec fn asks_for<E, R>(neighbors: usize) -> spec_fn(IndexArguments<E, R>) -> bool {
    |request: IndexArguments<E, R>| request.neighbors == neighbors
}

/// The requests among `arrivals` that ask for `neighbors` results, in
/// arrival order.
pub open spec fn sharing<E, R>(arrivals: Seq<IndexArguments<E, R>>, neighbors: usize) -> Seq<
    IndexArguments<E, R>,
> {
    arrivals.filter(asks_for(neighbors))
}

/// The distinct neighbour counts among `arrivals`, each at the place of its
/// first request.
pub open spec fn counts<E, R>(arrivals: Seq<IndexArguments<E, R>>) -> Seq<usize>
    decreases arrivals.len(),
{
    if arrivals.len() == 0 {
        Seq::empty()
    } else {
        let earlier = counts(arrivals.drop_last());
        let neighbors = arrivals.last().neighbors;
        if earlier.contains(neighbors) {
            earlier
        } else {
            earlier.push(neighbors)
        }
    }
}

/// The buckets that `arrivals` fall into: one per distinct neighbour count,
/// in order of first arrival, each holding its requests in arrival order.
pub open spec fn grouped<E, R>(arrivals: Seq<IndexArguments<E, R>>) -> Seq<BucketView<E, R>> {
    counts(arrivals).map_values(
        |neighbors: usize| BucketView { neighbors, requests: sharing(arrivals, neighbors) },
    )
}

/// The place a request gets in its bucket: the number of earlier arrivals
/// that ask for the same neighbour count.
pub open spec fn place<E, R>(arrivals: Seq<IndexArguments<E, R>>, i: int) -> int {
    sharing(arrivals.take(i), arrivals[i].neighbors).len() as int
}

/// The requests of all buckets, bucket after bucket.
pub open spec fn pending<E, R>(buckets: Seq<BucketView<E, R>>) -> Seq<IndexArguments<E, R>> {
    buckets.map_values(|bucket: BucketView<E, R>| bucket.requests).flatten()
}

/// The buckets of one drain pass, filled one arrival at a time.
pub struct BatchBuckets<E, R> {
    /// The buckets, in order of first arrival.
    buckets: Vec<Bucket<E, R>>,
    /// For each neighbour count that has a bucket, the place of that bucket.
    positions: HashMap<usize, usize>,
    /// Every request added so far, in arrival order.
    arrivals: Ghost<Seq<IndexArguments<E, R>>>,
}

impl<E, R> View for BatchBuckets<E, R> {
    type V = Seq<BucketView<E, R>>;

    /// The buckets that the arrivals so far fall into.
    open spec fn view(&self) -> Seq<BucketView<E, R>> {
        grouped(self.arrivals())
    }
}

impl<E, R> BatchBuckets<E, R> {
    /// Every request added so far, in arrival order.
    pub closed spec fn arrivals(&self) -> Seq<IndexArguments<E, R>> {
        self.arrivals@
    }

    /// The stored buckets are those the arrivals fall into, and the position
    /// table finds each of them by its neighbour count.
    #[verifier::type_invariant]
    spec fn wf(&self) -> bool {
        let counts = counts(self.arrivals@);
        &&& views(self.buckets@) == grouped(self.arrivals@)
        &&& forall|neighbors: usize|
            self.positions@.contains_key(neighbors) <==> counts.contains(neighbors)
        &&& forall|i: int|
            0 <= i < counts.len() ==> (#[trigger] self.positions@[counts[i]]) == i
    }

    /// An empty set of buckets.
    pub fn new() -> (buckets: Self)
        ensures
            buckets.arrivals() == Seq::<IndexArguments<E, R>>::empty(),
    {
        let buckets: Vec<Bucket<E, R>> = Vec::new();
        let positions: HashMap<usize, usize> = HashMap::new();
        let ghost arrivals = Seq::<IndexArguments<E, R>>::empty();
        assert(views(buckets@) =~= grouped(arrivals));
        BatchBuckets { buckets, positions, arrivals: Ghost(arrivals) }
    }

    /// The number of buckets.
    pub fn len(&self) -> (len: usize)
        ensures
            len == self@.len(),
    {
        proof {
            use_type_invariant(self);
        }
        self.buckets.len()
    }

    /// Adds a request to the bucket of its neighbour count, opening that
    /// bucket at the end if this is the first request to ask for the count.
    pub fn add(&mut self, request: IndexArguments<E, R>)
        ensures
            final(self).arrivals() == old(self).arrivals().push(request),
    {
        let mut taken = BatchBuckets::new();
        core::mem::swap(self, &mut taken);
        proof {
            use_type_invariant(&taken);
        }
        let BatchBuckets { mut buckets, mut positions, arrivals } = taken;
        let neighbors = request.neighbors;
        let ghost before = arrivals@;
        let ghost after = before.push(request);
        proof {
            lemma_grouped_push(before, request);
            assert(views(buckets@).len() == counts(before).len());
        }
        match positions.get(&neighbors) {
            Some(position) => {
                let position = *position;
                let ghost prior = buckets@;
                buckets[position].requests.push(request);
                proof {
                    assert(views(prior)[position as int] == grouped(before)[position as int]);
                    assert(views(buckets@) =~= grouped(after));
                }
            },
            None => {
                let position = buckets.len();
                positions.insert(neighbors, position);
                let mut requests = Vec::new();
                requests.push(request);
                buckets.push(Bucket { neighbors, requests });
                proof {
                    assert(views(buckets@) =~= grouped(after));
                    assert forall|other: usize|
                        positions@.contains_key(other) <==> counts(after).contains(other) by {
                        if counts(before).contains(other) {
                            let at = counts(before).index_of(other);
                            assert(counts(after)[at] == other);
                        }
                        if other == neighbors {
                            assert(counts(after)[position as int] == other);
                        }
                    }
                }
            },
        }
        *self = BatchBuckets { buckets, positions, arrivals: Ghost(after) };
    }

    /// Groups requests in the order in which they arrived.
    pub fn gather(taken: Vec<IndexArguments<E, R>>) -> (buckets: Self)
        ensures
            buckets.arrivals() == taken@,
    {
        let mut buckets = BatchBuckets::new();
        for request in it: taken
            invariant
                buckets.arrivals() == taken@.take(it.index() as int),
        {
            assert(taken@.take(it.index() as int).push(request) =~= taken@.take(
                it.index() + 1,
            ));
            buckets.add(request);
        }
        assert(taken@.take(taken@.len() as int) =~= taken@);
        buckets
    }

    /// Hands the buckets out, in order of first arrival.
    pub fn into_buckets(self) -> (buckets: Vec<Bucket<E, R>>)
        ensures
            views(buckets@) == self@,
    {
        proof {
            use_type_invariant(&self);
        }
        self.buckets
    }
}

/// A new arrival adds its neighbour count at the end unless the count was
/// seen before.
pub proof fn lemma_counts_push<E, R>(
    arrivals: Seq<IndexArguments<E, R>>,
    request: IndexArguments<E, R>,
)
    ensures
        counts(arrivals.push(request)) == if counts(arrivals).contains(request.neighbors) {
            counts(arrivals)
        } else {
            counts(arrivals).push(request.neighbors)
        },
{
    assert(arrivals.push(request).drop_last() =~= arrivals);
}

/// No neighbour count is listed twice.
pub proof fn lemma_counts_distinct<E, R>(arrivals: Seq<IndexArguments<E, R>>)
    ensures
        counts(arrivals).no_duplicates(),
    decreases arrivals.len(),
{
    if arrivals.len() > 0 {
        lemma_counts_distinct(arrivals.drop_last());
    }
}

/// A neighbour count is listed exactly when some arrival asks for it.
pub proof fn lemma_counts_complete<E, R>(arrivals: Seq<IndexArguments<E, R>>, neighbors: usize)
    ensures
        counts(arrivals).contains(neighbors) <==> exists|i: int|
            0 <= i < arrivals.len() && (#[trigger] arrivals[i]).neighbors == neighbors,
    decreases arrivals.len(),
{
    if arrivals.len() > 0 {
        let earlier = arrivals.drop_last();
        let last = arrivals.last();
        lemma_counts_complete(earlier, neighbors);
        if counts(earlier).contains(neighbors) {
            let i = choose|i: int|
                0 <= i < earlier.len() && (#[trigger] earlier[i]).neighbors == neighbors;
            assert(arrivals[i].neighbors == neighbors);
            let at = counts(earlier).index_of(neighbors);
            assert(counts(arrivals)[at] == neighbors);
        } else if last.neighbors == neighbors {
            assert(counts(arrivals).last() == neighbors);
        } else {
            assert forall|i: int| 0 <= i < arrivals.len() implies (#[trigger] arrivals[i]).neighbors
                != neighbors by {
                if i < earlier.len() {
                    assert(earlier[i] == arrivals[i]);
                }
            }
        }
    }
}

/// Where nobody asks for a neighbour count, no request shares it.
pub proof fn lemma_sharing_unasked<E, R>(arrivals: Seq<IndexArguments<E, R>>, neighbors: usize)
    requires
        !counts(arrivals).contains(neighbors),
    ensures
        sharing(arrivals, neighbors) == Seq::<IndexArguments<E, R>>::empty(),
{
    lemma_counts_complete(arrivals, neighbors);
    let shared = sharing(arrivals, neighbors);
    if shared.len() > 0 {
        arrivals.lemma_filter_pred(asks_for(neighbors), 0);
        arrivals.lemma_filter_contains_rev(asks_for(neighbors), shared[0]);
        let i = arrivals.index_of(shared[0]);
        assert(arrivals[i].neighbors == neighbors);
    }
}

/// How the grouping grows by one arrival: the request joins the bucket of
/// its neighbour count where there is one, and otherwise opens a bucket of
/// its own behind all others.
pub proof fn lemma_grouped_push<E, R>(
    arrivals: Seq<IndexArguments<E, R>>,
    request: IndexArguments<E, R>,
)
    ensures
        counts(arrivals).no_duplicates(),
        counts(arrivals).contains(request.neighbors) ==> {
            let at = counts(arrivals).index_of(request.neighbors);
            &&& 0 <= at < counts(arrivals).len()
            &&& counts(arrivals)[at] == request.neighbors
            &&& counts(arrivals.push(request)) == counts(arrivals)
            &&& grouped(arrivals.push(request)) == grouped(arrivals).update(
                at,
                BucketView {
                    neighbors: request.neighbors,
                    requests: sharing(arrivals, request.neighbors).push(request),
                },
            )
        },
        !counts(arrivals).contains(request.neighbors) ==> {
            &&& counts(arrivals.push(request)) == counts(arrivals).push(request.neighbors)
            &&& grouped(arrivals.push(request)) == grouped(arrivals).push(
                BucketView { neighbors: request.neighbors, requests: seq![request] },
            )
        },
{
    let after = arrivals.push(request);
    lemma_counts_push(arrivals, request);
    lemma_counts_distinct(arrivals);
    assert forall|i: int| 0 <= i < counts(after).len() implies #[trigger] sharing(
        after,
        counts(after)[i],
    ) == if counts(after)[i] == request.neighbors {
        sharing(arrivals, request.neighbors).push(request)
    } else {
        sharing(arrivals, counts(after)[i])
    } by {
        arrivals.lemma_filter_push(request, asks_for(counts(after)[i]));
    }
    if !counts(arrivals).contains(request.neighbors) {
        lemma_sharing_unasked(arrivals, request.neighbors);
    }
}

/// No bucket is empty, and a bucket holds only requests that ask for its
/// neighbour count.
pub proof fn lemma_bucket_members<E, R>(arrivals: Seq<IndexArguments<E, R>>, at: int)
    requires
        0 <= at < grouped(arrivals).len(),
    ensures
        grouped(arrivals)[at].requests.len() > 0,
        forall|j: int|
            0 <= j < grouped(arrivals)[at].requests.len() ==> (#[trigger] grouped(
                arrivals,
            )[at].requests[j]).neighbors == grouped(arrivals)[at].neighbors,
{
    let neighbors = counts(arrivals)[at];
    lemma_counts_complete(arrivals, neighbors);
    let i = choose|i: int|
        0 <= i < arrivals.len() && (#[trigger] arrivals[i]).neighbors == neighbors;
    arrivals.lemma_filter_contains(asks_for(neighbors), i);
    assert forall|j: int| 0 <= j < sharing(arrivals, neighbors).len() implies (#[trigger] sharing(
        arrivals,
        neighbors,
    )[j]).neighbors == neighbors by {
        arrivals.lemma_filter_pred(asks_for(neighbors), j);
    }
}

/// Requests that all ask for the same neighbour count fall into a single
/// bucket, which holds all of them in arrival order.
pub proof fn lemma_same_count_one_bucket<E, R>(
    arrivals: Seq<IndexArguments<E, R>>,
    neighbors: usize,
)
    requires
        arrivals.len() > 0,
        forall|i: int| 0 <= i < arrivals.len() ==> (#[trigger] arrivals[i]).neighbors == neighbors,
    ensures
        grouped(arrivals) == seq![BucketView { neighbors, requests: arrivals }],
    decreases arrivals.len(),
{
    let earlier = arrivals.drop_last();
    let last = arrivals.last();
    assert(arrivals =~= earlier.push(last));
    lemma_grouped_push(earlier, last);
    if earlier.len() == 0 {
        assert(seq![last] =~= arrivals);
    } else {
        lemma_same_count_one_bucket(earlier, neighbors);
        assert(grouped(earlier)[0].neighbors == counts(earlier)[0]);
    }
}

/// A request stands in the bucket of its neighbour count, behind exactly
/// the earlier arrivals that ask for the same count.
pub proof fn lemma_place<E, R>(arrivals: Seq<IndexArguments<E, R>>, i: int)
    requires
        0 <= i < arrivals.len(),
    ensures
        0 <= place(arrivals, i) < sharing(arrivals, arrivals[i].neighbors).len(),
        sharing(arrivals, arrivals[i].neighbors)[place(arrivals, i)] == arrivals[i],
{
    let asked = asks_for::<E, R>(arrivals[i].neighbors);
    let front = arrivals.take(i);
    let back = arrivals.skip(i + 1);
    assert(arrivals =~= front.push(arrivals[i]) + back);
    Seq::filter_distributes_over_add(front.push(arrivals[i]), back, asked);
    front.lemma_filter_push(arrivals[i], asked);
}

/// Of two requests that ask for the same neighbour count, the one that
/// arrived first stands first in their bucket.
pub proof fn lemma_arrival_order_kept<E, R>(arrivals: Seq<IndexArguments<E, R>>, i: int, j: int)
    requires
        0 <= i < j < arrivals.len(),
        arrivals[i].neighbors == arrivals[j].neighbors,
    ensures
        place(arrivals, i) < place(arrivals, j),
{
    let asked = asks_for::<E, R>(arrivals[i].neighbors);
    let front = arrivals.take(i);
    let between = arrivals.subrange(i + 1, j);
    assert(arrivals.take(j) =~= front.push(arrivals[i]) + between);
    Seq::filter_distributes_over_add(front.push(arrivals[i]), between, asked);
    front.lemma_filter_push(arrivals[i], asked);
}

/// Buckets stand in the order in which their first requests arrived: some
/// request asks for an earlier bucket's neighbour count before any request
/// asks for a later bucket's.
pub proof fn lemma_first_come_first_bucket<E, R>(
    arrivals: Seq<IndexArguments<E, R>>,
    a: int,
    b: int,
)
    requires
        0 <= a < b < counts(arrivals).len(),
    ensures
        exists|i: int|
            0 <= i < arrivals.len() && (#[trigger] arrivals[i]).neighbors == counts(arrivals)[a]
                && forall|j: int|
                0 <= j <= i ==> (#[trigger] arrivals[j]).neighbors != counts(arrivals)[b],
    decreases arrivals.len(),
{
    let earlier = arrivals.drop_last();
    let last = arrivals.last();
    let i = if b < counts(earlier).len() {
        lemma_first_come_first_bucket(earlier, a, b);
        choose|i: int|
            0 <= i < earlier.len() && (#[trigger] earlier[i]).neighbors == counts(earlier)[a]
                && forall|j: int|
                0 <= j <= i ==> (#[trigger] earlier[j]).neighbors != counts(earlier)[b]
    } else {
        lemma_counts_complete(earlier, counts(earlier)[a]);
        lemma_counts_complete(earlier, last.neighbors);
        choose|i: int|
            0 <= i < earlier.len() && (#[trigger] earlier[i]).neighbors == counts(earlier)[a]
    };
    assert forall|j: int| 0 <= j <= i implies (#[trigger] arrivals[j]).neighbors != counts(
        arrivals,
    )[b] by {
        assert(arrivals[j] == earlier[j]);
    }
}

/// Every arrival stands in exactly one bucket, exactly once: the buckets
/// hold the arrivals, no more and no fewer.
pub proof fn lemma_every_request_once<E, R>(arrivals: Seq<IndexArguments<E, R>>)
    ensures
        pending(grouped(arrivals)).to_multiset() == arrivals.to_multiset(),
    decreases arrivals.len(),
{
    broadcast use vstd::seq_lib::group_to_multiset_ensures;

    if arrivals.len() > 0 {
        let earlier = arrivals.drop_last();
        let last = arrivals.last();
        assert(arrivals =~= earlier.push(last));
        lemma_grouped_push(earlier, last);
        lemma_every_request_once(earlier);
        let lists = grouped(earlier).map_values(|bucket: BucketView<E, R>| bucket.requests);
        let grown = grouped(arrivals).map_values(|bucket: BucketView<E, R>| bucket.requests);
        if counts(earlier).contains(last.neighbors) {
            let at = counts(earlier).index_of(last.neighbors);
            let front = lists.take(at);
            let back = lists.skip(at + 1);
            assert(lists =~= front.push(lists[at]) + back);
            assert(grown =~= front.push(lists[at].push(last)) + back);
            vstd::seq_lib::lemma_flatten_concat(front.push(lists[at]), back);
            vstd::seq_lib::lemma_flatten_concat(front.push(lists[at].push(last)), back);
            front.lemma_flatten_push(lists[at]);
            front.lemma_flatten_push(lists[at].push(last));
            vstd::seq_lib::lemma_multiset_commutative(front.flatten() + lists[at], back.flatten());
            vstd::seq_lib::lemma_multiset_commutative(
                (front.flatten() + lists[at]).push(last),
                back.flatten(),
            );
        } else {
            assert(grown =~= lists.push(seq![last]));
            lists.lemma_flatten_push(seq![last]);
            assert(pending(grouped(arrivals)) =~= pending(grouped(earlier)).push(last));
        }
    }
}

/// There are no more buckets than arrivals and, where anything arrived, at
/// least one; together the buckets hold as many requests as arrived.
pub proof fn lemma_grouped_sizes<E, R>(arrivals: Seq<IndexArguments<E, R>>)
    ensures
        grouped(arrivals).len() <= arrivals.len(),
        arrivals.len() > 0 ==> grouped(arrivals).len() > 0,
        pending(grouped(arrivals)).len() == arrivals.len(),
    decreases arrivals.len(),
{
    lemma_every_request_once(arrivals);
    vstd::seq_lib::to_multiset_len(arrivals);
    vstd::seq_lib::to_multiset_len(pending(grouped(arrivals)));
    if arrivals.len() > 0 {
        lemma_grouped_sizes(arrivals.drop_last());
    }
}

} // verus!
