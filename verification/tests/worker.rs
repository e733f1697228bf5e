use index_engine::bucket::{BatchBuckets, Bucket};
use index_engine::engine::{IndexEngine, IndexEngineError, QueueError};
use index_engine::index::error::IndexSearchError;
use index_engine::index::service::{Query, SearchService};
use index_engine::request::{IndexArguments, Reply};
use index_engine::delivery::{embeddings, serve, settle, Delivery};
use index_engine::worker::{BatchLimit, Next, PassReport, Phase, Worker};
use nolock::queues::mpsc::jiffy::AsyncReceiver;

type Embedding = [f32; 2];

/// A backend over ten known vectors: vector `i` has `i` as its first
/// coordinate.  It counts its batched calls, keeps what it was asked, and
/// fails the calls it is told to fail.
struct TenVectors {
    batch_calls: usize,
    asked: Vec<(Vec<Embedding>, usize)>,
    failing_calls: Vec<usize>,
}

impl TenVectors {
    fn new() -> Self {
        TenVectors { batch_calls: 0, asked: Vec::new(), failing_calls: Vec::new() }
    }

    fn failing(calls: &[usize]) -> Self {
        TenVectors { batch_calls: 0, asked: Vec::new(), failing_calls: calls.to_vec() }
    }

    fn nearest(embedding: &Embedding, neighbors: usize) -> Vec<i64> {
        let mut ids: Vec<i64> = (0..10).collect();
        ids.sort_by(|a, b| {
            let da = (*a as f32 - embedding[0]).abs();
            let db = (*b as f32 - embedding[0]).abs();
            da.partial_cmp(&db).unwrap()
        });
        ids.truncate(neighbors);
        ids
    }
}

impl SearchService<Embedding> for TenVectors {
    fn search(&mut self, query: Query<Embedding>) -> Result<Vec<i64>, IndexSearchError> {
        Ok(Self::nearest(&query.embedding, query.neighbors))
    }

    fn search_batch(
        &mut self,
        query: &[Embedding],
        neighbors: usize,
    ) -> Result<Vec<Vec<i64>>, IndexSearchError> {
        let call = self.batch_calls;
        self.batch_calls += 1;
        self.asked.push((query.to_vec(), neighbors));
        if self.failing_calls.contains(&call) {
            return Err(IndexSearchError::from(format!("call {} failed", call)));
        }
        Ok(query.iter().map(|e| Self::nearest(e, neighbors)).collect())
    }
}

/// A backend that answers every batched call with the same prepared lists,
/// whatever it is asked.
struct Scripted {
    lists: Vec<Vec<i64>>,
}

impl SearchService<Embedding> for Scripted {
    fn search(&mut self, _query: Query<Embedding>) -> Result<Vec<i64>, IndexSearchError> {
        Ok(self.lists.first().cloned().unwrap_or_default())
    }

    fn search_batch(
        &mut self,
        _query: &[Embedding],
        _neighbors: usize,
    ) -> Result<Vec<Vec<i64>>, IndexSearchError> {
        Ok(self.lists.clone())
    }
}

type Requests = AsyncReceiver<IndexArguments<Embedding, u32>>;

fn start(max_parallelism: usize) -> (IndexEngine<Embedding, u32>, Worker, Requests) {
    IndexEngine::new(max_parallelism)
}

/// Takes requests off the queue for as long as the worker wants more and the
/// queue has one ready.
fn take(worker: &Worker, requests: &mut Requests) -> Vec<IndexArguments<Embedding, u32>> {
    let mut taken = Vec::new();
    while worker.wants_more(taken.len()) {
        match requests.try_dequeue() {
            Ok(request) => taken.push(request),
            Err(_) => break,
        }
    }
    taken
}

/// One iteration of the loop around the worker.
fn step<S: SearchService<Embedding>>(
    worker: &mut Worker,
    requests: &mut Requests,
    fired: bool,
    backend: &mut S,
) -> PassReport<u32> {
    worker.observe_shutdown(fired);
    let taken = take(worker, requests);
    worker.pass(taken, backend)
}

fn ask(engine: &IndexEngine<Embedding, u32>, id: u32, at: f32, neighbors: usize) {
    engine.enqueue(IndexArguments::new([at, 0.0], neighbors, id)).unwrap();
}

fn reply_of(deliveries: &[Delivery<u32>], id: u32) -> &Option<Reply> {
    let found: Vec<&Delivery<u32>> = deliveries.iter().filter(|d| d.sender == id).collect();
    assert_eq!(found.len(), 1);
    &found[0].reply
}

#[test]
fn query_returns_five_identifiers_from_ten_vectors() {
    let (engine, mut worker, mut requests) = start(16);
    ask(&engine, 7, 3.2, 5);
    let mut backend = TenVectors::new();
    let report = step(&mut worker, &mut requests, false, &mut backend);
    assert_eq!(report.drained, 1);
    assert_eq!(report.batches, 1);
    assert_eq!(report.next, Next::Continue);
    assert_eq!(report.deliveries.len(), 1);
    assert_eq!(report.deliveries[0].sender, 7);
    match &report.deliveries[0].reply {
        Some(Ok(ids)) => {
            assert_eq!(ids.len(), 5);
            assert!(ids.iter().all(|id| (0..10).contains(id)));
            assert_eq!(ids, &vec![3, 4, 2, 5, 1]);
        }
        other => panic!("unexpected reply {:?}", other),
    }
    assert_eq!(worker.current_phase(), Phase::Running);
}

#[test]
fn two_neighbour_counts_make_two_batched_calls() {
    let (engine, mut worker, mut requests) = start(16);
    ask(&engine, 1, 0.0, 3);
    ask(&engine, 2, 9.0, 7);
    let mut backend = TenVectors::new();
    let report = step(&mut worker, &mut requests, false, &mut backend);
    assert_eq!(report.drained, 2);
    assert_eq!(report.batches, 2);
    assert_eq!(backend.batch_calls, 2);
    assert_eq!(backend.asked[0], (vec![[0.0, 0.0]], 3));
    assert_eq!(backend.asked[1], (vec![[9.0, 0.0]], 7));
    assert_eq!(reply_of(&report.deliveries, 1), &Some(Ok(vec![0, 1, 2])));
    assert_eq!(reply_of(&report.deliveries, 2), &Some(Ok(vec![9, 8, 7, 6, 5, 4, 3])));
}

#[test]
fn same_neighbour_count_makes_one_batched_call() {
    let (engine, mut worker, mut requests) = start(16);
    for id in 0..6 {
        ask(&engine, id, id as f32, 4);
    }
    let mut backend = TenVectors::new();
    let report = step(&mut worker, &mut requests, false, &mut backend);
    assert_eq!(report.drained, 6);
    assert_eq!(report.batches, 1);
    assert_eq!(backend.batch_calls, 1);
    let (batch, neighbors) = &backend.asked[0];
    assert_eq!(*neighbors, 4);
    assert_eq!(
        batch,
        &vec![[0.0, 0.0], [1.0, 0.0], [2.0, 0.0], [3.0, 0.0], [4.0, 0.0], [5.0, 0.0]]
    );
    assert_eq!(report.deliveries.len(), 6);
    for d in &report.deliveries {
        assert_eq!(d.reply.as_ref().unwrap().as_ref().unwrap().len(), 4);
    }
}

#[test]
fn results_reach_requests_in_arrival_order() {
    let (engine, mut worker, mut requests) = start(16);
    ask(&engine, 100, 8.0, 1);
    ask(&engine, 200, 2.0, 1);
    ask(&engine, 300, 5.0, 1);
    let mut backend = TenVectors::new();
    let report = step(&mut worker, &mut requests, false, &mut backend);
    let senders: Vec<u32> = report.deliveries.iter().map(|d| d.sender).collect();
    assert_eq!(senders, vec![100, 200, 300]);
    assert_eq!(report.deliveries[0].reply, Some(Ok(vec![8])));
    assert_eq!(report.deliveries[1].reply, Some(Ok(vec![2])));
    assert_eq!(report.deliveries[2].reply, Some(Ok(vec![5])));
}

#[test]
fn deliveries_come_bucket_by_bucket() {
    let (engine, mut worker, mut requests) = start(16);
    ask(&engine, 1, 1.0, 2);
    ask(&engine, 2, 2.0, 1);
    ask(&engine, 3, 3.0, 2);
    ask(&engine, 4, 4.0, 1);
    let mut backend = TenVectors::new();
    let report = step(&mut worker, &mut requests, false, &mut backend);
    assert_eq!(report.batches, 2);
    let senders: Vec<u32> = report.deliveries.iter().map(|d| d.sender).collect();
    assert_eq!(senders, vec![1, 3, 2, 4]);
    assert_eq!(backend.asked[0], (vec![[1.0, 0.0], [3.0, 0.0]], 2));
    assert_eq!(backend.asked[1], (vec![[2.0, 0.0], [4.0, 0.0]], 1));
    assert_eq!(reply_of(&report.deliveries, 3), &Some(Ok(vec![3, 2])));
    assert_eq!(reply_of(&report.deliveries, 4), &Some(Ok(vec![4])));
}

#[test]
fn failed_call_reaches_every_request_of_its_bucket_and_the_worker_goes_on() {
    let (engine, mut worker, mut requests) = start(16);
    ask(&engine, 1, 1.0, 3);
    ask(&engine, 2, 2.0, 3);
    ask(&engine, 3, 3.0, 3);
    let mut backend = TenVectors::failing(&[0]);
    let report = step(&mut worker, &mut requests, false, &mut backend);
    assert_eq!(report.drained, 3);
    assert_eq!(report.batches, 1);
    assert_eq!(report.deliveries.len(), 3);
    let failure = IndexSearchError::from(String::from("call 0 failed"));
    for (d, id) in report.deliveries.iter().zip([1u32, 2, 3]) {
        assert_eq!(d.sender, id);
        assert_eq!(d.reply, Some(Err(failure.clone())));
        assert_eq!(
            IndexEngine::<Embedding, u32>::answer(d.reply.clone()),
            Err(IndexEngineError::IndexSearchError(failure.clone()))
        );
    }
    assert_eq!(report.next, Next::Continue);
    assert_eq!(worker.current_phase(), Phase::Running);

    ask(&engine, 4, 6.0, 2);
    let report = step(&mut worker, &mut requests, false, &mut backend);
    assert_eq!(report.drained, 1);
    assert_eq!(report.deliveries[0].sender, 4);
    assert_eq!(report.deliveries[0].reply, Some(Ok(vec![6, 5])));
}

#[test]
fn only_the_failing_bucket_fails() {
    let (engine, mut worker, mut requests) = start(16);
    ask(&engine, 1, 1.0, 3);
    ask(&engine, 2, 2.0, 5);
    ask(&engine, 3, 3.0, 3);
    let mut backend = TenVectors::failing(&[0]);
    let report = step(&mut worker, &mut requests, false, &mut backend);
    assert_eq!(report.batches, 2);
    assert!(matches!(reply_of(&report.deliveries, 1), Some(Err(_))));
    assert!(matches!(reply_of(&report.deliveries, 3), Some(Err(_))));
    assert_eq!(reply_of(&report.deliveries, 2), &Some(Ok(vec![2, 1, 3, 0, 4])));
}

#[test]
fn backend_with_fewer_candidates_is_passed_through() {
    let (engine, mut worker, mut requests) = start(16);
    ask(&engine, 1, 0.0, 25);
    let mut backend = TenVectors::new();
    let report = step(&mut worker, &mut requests, false, &mut backend);
    assert_eq!(report.deliveries[0].reply, Some(Ok(vec![0, 1, 2, 3, 4, 5, 6, 7, 8, 9])));
}

#[test]
fn zero_neighbours_gets_an_empty_list() {
    let (engine, mut worker, mut requests) = start(16);
    ask(&engine, 1, 4.0, 0);
    let mut backend = TenVectors::new();
    let report = step(&mut worker, &mut requests, false, &mut backend);
    assert_eq!(report.deliveries[0].reply, Some(Ok(vec![])));
}

#[test]
fn pass_drains_at_most_the_cap() {
    let (engine, mut worker, mut requests) = start(16);
    assert_eq!(worker.batch_limit(), 8);
    for id in 0..20 {
        ask(&engine, id, 1.0, 2);
    }
    let mut backend = TenVectors::new();
    let first = step(&mut worker, &mut requests, false, &mut backend);
    assert_eq!(first.drained, 8);
    assert_eq!(first.deliveries.len(), 8);
    assert_eq!(first.next, Next::Continue);
    let second = step(&mut worker, &mut requests, false, &mut backend);
    assert_eq!(second.drained, 8);
    let third = step(&mut worker, &mut requests, false, &mut backend);
    assert_eq!(third.drained, 4);
    assert_eq!(third.next, Next::Continue);
    let senders: Vec<u32> = first
        .deliveries
        .iter()
        .chain(second.deliveries.iter())
        .chain(third.deliveries.iter())
        .map(|d| d.sender)
        .collect();
    assert_eq!(senders, (0..20).collect::<Vec<u32>>());
    let fourth = step(&mut worker, &mut requests, false, &mut backend);
    assert_eq!(fourth.drained, 0);
    assert_eq!(fourth.next, Next::Idle);
    assert_eq!(backend.batch_calls, 3);
}

#[test]
fn empty_queue_idles_without_a_backend_call() {
    let (_engine, mut worker, mut requests) = start(16);
    let mut backend = TenVectors::new();
    let report = step(&mut worker, &mut requests, false, &mut backend);
    assert_eq!(report.drained, 0);
    assert_eq!(report.batches, 0);
    assert!(report.deliveries.is_empty());
    assert_eq!(report.next, Next::Idle);
    assert_eq!(backend.batch_calls, 0);
    assert_eq!(worker.current_phase(), Phase::Running);
}

#[test]
fn cap_is_half_the_parallelism_and_at_least_one() {
    for (parallelism, cap) in
        [(0usize, 1usize), (1, 1), (2, 1), (3, 1), (4, 2), (5, 2), (16, 8), (17, 8), (usize::MAX, usize::MAX / 2)]
    {
        let (_engine, worker, _requests) = start(parallelism);
        assert_eq!(worker.batch_limit(), cap);
        assert_eq!(worker.current_phase(), Phase::Running);
    }
}

#[test]
fn batch_limit_is_never_zero() {
    assert_eq!(BatchLimit::from_parallelism(0).get(), 1);
    assert_eq!(BatchLimit::from_parallelism(1).get(), 1);
    assert_eq!(BatchLimit::from_parallelism(2).get(), 1);
    assert_eq!(BatchLimit::from_parallelism(3).get(), 1);
    assert_eq!(BatchLimit::from_parallelism(4).get(), 2);
    assert_eq!(BatchLimit::from_parallelism(9).get(), 4);
    assert_eq!(BatchLimit::from_parallelism(64).get(), 32);
    assert_eq!(BatchLimit::from_parallelism(usize::MAX).get(), usize::MAX / 2);
}

#[test]
fn cap_of_one_serves_one_request_per_pass() {
    let (engine, mut worker, mut requests) = start(1);
    ask(&engine, 1, 1.0, 1);
    ask(&engine, 2, 2.0, 1);
    let mut backend = TenVectors::new();
    let first = step(&mut worker, &mut requests, false, &mut backend);
    assert_eq!(first.drained, 1);
    assert_eq!(first.deliveries[0].sender, 1);
    let second = step(&mut worker, &mut requests, false, &mut backend);
    assert_eq!(second.drained, 1);
    assert_eq!(second.deliveries[0].sender, 2);
}

#[test]
fn shutdown_with_an_empty_queue_stops_the_worker() {
    let (_engine, mut worker, mut requests) = start(16);
    let mut backend = TenVectors::new();
    let report = step(&mut worker, &mut requests, true, &mut backend);
    assert_eq!(report.drained, 0);
    assert_eq!(report.next, Next::Exit);
    assert_eq!(worker.current_phase(), Phase::Stopped);
}

#[test]
fn shutdown_still_serves_what_is_queued() {
    let (engine, mut worker, mut requests) = start(16);
    ask(&engine, 1, 1.0, 2);
    ask(&engine, 2, 2.0, 2);
    ask(&engine, 3, 3.0, 4);
    let mut backend = TenVectors::new();
    let report = step(&mut worker, &mut requests, true, &mut backend);
    assert_eq!(report.drained, 3);
    assert_eq!(report.deliveries.len(), 3);
    assert!(report.deliveries.iter().all(|d| matches!(d.reply, Some(Ok(_)))));
    assert_eq!(report.next, Next::Exit);
    assert_eq!(worker.current_phase(), Phase::Stopped);
}

#[test]
fn shutdown_drains_a_long_queue_in_capped_passes() {
    let (engine, mut worker, mut requests) = start(4);
    assert_eq!(worker.batch_limit(), 2);
    for id in 0..5 {
        ask(&engine, id, 1.0, 1);
    }
    let mut backend = TenVectors::new();
    let first = step(&mut worker, &mut requests, true, &mut backend);
    assert_eq!(first.drained, 2);
    assert_eq!(first.next, Next::Continue);
    assert_eq!(worker.current_phase(), Phase::Draining);
    let second = step(&mut worker, &mut requests, false, &mut backend);
    assert_eq!(second.drained, 2);
    assert_eq!(second.next, Next::Continue);
    assert_eq!(worker.current_phase(), Phase::Draining);
    let third = step(&mut worker, &mut requests, false, &mut backend);
    assert_eq!(third.drained, 1);
    assert_eq!(third.next, Next::Exit);
    assert_eq!(worker.current_phase(), Phase::Stopped);
}

#[test]
fn shutdown_with_exactly_a_capful_needs_one_more_pass() {
    let (engine, mut worker, mut requests) = start(4);
    ask(&engine, 1, 1.0, 1);
    ask(&engine, 2, 1.0, 1);
    let mut backend = TenVectors::new();
    let first = step(&mut worker, &mut requests, true, &mut backend);
    assert_eq!(first.drained, 2);
    assert_eq!(first.next, Next::Continue);
    let second = step(&mut worker, &mut requests, true, &mut backend);
    assert_eq!(second.drained, 0);
    assert_eq!(second.next, Next::Exit);
}

#[test]
fn stopped_worker_takes_nothing_off_the_queue() {
    let (engine, mut worker, mut requests) = start(16);
    let mut backend = TenVectors::new();
    assert_eq!(step(&mut worker, &mut requests, true, &mut backend).next, Next::Exit);
    ask(&engine, 1, 1.0, 1);
    for fired in [false, true, false] {
        let report = step(&mut worker, &mut requests, fired, &mut backend);
        assert_eq!(report.drained, 0);
        assert_eq!(report.batches, 0);
        assert!(report.deliveries.is_empty());
        assert_eq!(report.next, Next::Exit);
        assert_eq!(worker.current_phase(), Phase::Stopped);
    }
    assert_eq!(backend.batch_calls, 0);
}

#[test]
fn queue_is_closed_once_the_consuming_end_is_gone() {
    let (engine, _worker, requests) = start(16);
    assert_eq!(engine.enqueue(IndexArguments::new([0.0, 0.0], 1, 1)), Ok(()));
    drop(requests);
    assert_eq!(
        engine.enqueue(IndexArguments::new([0.0, 0.0], 1, 2)),
        Err(IndexEngineError::QueueError(QueueError::Closed))
    );
}

#[test]
fn enqueue_is_accepted_while_the_worker_lives() {
    let (engine, mut worker, mut requests) = start(16);
    for id in 0..3000 {
        assert_eq!(engine.enqueue(IndexArguments::new([0.0, 0.0], 1, id)), Ok(()));
    }
    let mut backend = TenVectors::new();
    let mut served = 0;
    let mut passes = 0;
    loop {
        let report = step(&mut worker, &mut requests, false, &mut backend);
        if report.next == Next::Idle {
            break;
        }
        assert!(report.drained <= 8);
        for d in &report.deliveries {
            assert_eq!(d.sender, served);
            served += 1;
        }
        passes += 1;
    }
    assert_eq!(served, 3000);
    assert_eq!(passes, 375);
}

#[test]
fn too_few_lists_leave_the_later_requests_without_an_answer() {
    let (engine, mut worker, mut requests) = start(16);
    ask(&engine, 1, 1.0, 2);
    ask(&engine, 2, 2.0, 2);
    ask(&engine, 3, 3.0, 2);
    let mut backend = Scripted { lists: vec![vec![5, 6]] };
    let report = step(&mut worker, &mut requests, false, &mut backend);
    assert_eq!(report.deliveries.len(), 3);
    assert_eq!(report.deliveries[0].reply, Some(Ok(vec![5, 6])));
    assert_eq!(report.deliveries[1].reply, None);
    assert_eq!(report.deliveries[2].reply, None);
    assert_eq!(
        IndexEngine::<Embedding, u32>::answer(report.deliveries[2].reply.clone()),
        Err(IndexEngineError::NoNeighbors)
    );
}

#[test]
fn surplus_lists_are_dropped() {
    let (engine, mut worker, mut requests) = start(16);
    ask(&engine, 1, 1.0, 1);
    ask(&engine, 2, 2.0, 1);
    let mut backend = Scripted { lists: vec![vec![1], vec![2], vec![3], vec![4]] };
    let report = step(&mut worker, &mut requests, false, &mut backend);
    assert_eq!(report.deliveries.len(), 2);
    assert_eq!(report.deliveries[0].reply, Some(Ok(vec![1])));
    assert_eq!(report.deliveries[1].reply, Some(Ok(vec![2])));
}

#[test]
fn lists_are_neither_padded_nor_cut() {
    let (engine, mut worker, mut requests) = start(16);
    ask(&engine, 1, 1.0, 3);
    ask(&engine, 2, 2.0, 3);
    let mut backend = Scripted { lists: vec![vec![], vec![9, 8, 7, 6, 5]] };
    let report = step(&mut worker, &mut requests, false, &mut backend);
    assert_eq!(report.deliveries[0].reply, Some(Ok(vec![])));
    assert_eq!(report.deliveries[1].reply, Some(Ok(vec![9, 8, 7, 6, 5])));
}

#[test]
fn settle_matches_by_position() {
    let requests = vec![
        IndexArguments::new([0.0f32, 0.0], 2, 'a'),
        IndexArguments::new([1.0, 0.0], 2, 'b'),
        IndexArguments::new([2.0, 0.0], 2, 'c'),
    ];
    let deliveries = settle(requests, Ok(vec![vec![1, 2], vec![3, 4], vec![5, 6]]));
    assert_eq!(
        deliveries,
        vec![
            Delivery { sender: 'a', reply: Some(Ok(vec![1, 2])) },
            Delivery { sender: 'b', reply: Some(Ok(vec![3, 4])) },
            Delivery { sender: 'c', reply: Some(Ok(vec![5, 6])) },
        ]
    );
}

#[test]
fn settle_hands_a_failure_to_everyone() {
    let requests = vec![
        IndexArguments::new([0.0f32, 0.0], 2, 'a'),
        IndexArguments::new([1.0, 0.0], 2, 'b'),
    ];
    let failure = IndexSearchError::from(String::from("index unloaded"));
    let deliveries = settle(requests, Err(failure.clone()));
    assert_eq!(
        deliveries,
        vec![
            Delivery { sender: 'a', reply: Some(Err(failure.clone())) },
            Delivery { sender: 'b', reply: Some(Err(failure)) },
        ]
    );
}

#[test]
fn settle_of_an_empty_bucket_delivers_nothing() {
    let none: Vec<IndexArguments<Embedding, u32>> = Vec::new();
    assert!(settle(none, Ok(vec![vec![1]])).is_empty());
    let none: Vec<IndexArguments<Embedding, u32>> = Vec::new();
    assert!(settle(none, Err(IndexSearchError::from(String::new()))).is_empty());
}

#[test]
fn embeddings_are_collected_in_bucket_order() {
    let requests = vec![
        IndexArguments::new([3.0f32, 1.0], 2, 1u32),
        IndexArguments::new([1.0, 2.0], 2, 2),
        IndexArguments::new([2.0, 3.0], 2, 3),
    ];
    assert_eq!(embeddings(&requests), vec![[3.0, 1.0], [1.0, 2.0], [2.0, 3.0]]);
    let none: Vec<IndexArguments<Embedding, u32>> = Vec::new();
    assert!(embeddings(&none).is_empty());
}

#[test]
fn serve_makes_one_call_per_bucket_in_order() {
    let buckets = vec![
        Bucket {
            neighbors: 2,
            requests: vec![
                IndexArguments::new([7.0f32, 0.0], 2, 1u32),
                IndexArguments::new([0.0, 0.0], 2, 2),
            ],
        },
        Bucket { neighbors: 1, requests: vec![IndexArguments::new([4.0, 0.0], 1, 3)] },
    ];
    let mut backend = TenVectors::new();
    let out = serve(&mut backend, buckets);
    let deliveries = out.deliveries;
    assert_eq!(out.batches, 2);
    assert_eq!(backend.batch_calls, 2);
    assert_eq!(backend.asked[0].1, 2);
    assert_eq!(backend.asked[1].1, 1);
    assert_eq!(
        deliveries,
        vec![
            Delivery { sender: 1, reply: Some(Ok(vec![7, 6])) },
            Delivery { sender: 2, reply: Some(Ok(vec![0, 1])) },
            Delivery { sender: 3, reply: Some(Ok(vec![4])) },
        ]
    );
}

#[test]
fn serve_of_no_buckets_calls_nothing() {
    let mut backend = TenVectors::new();
    let none: Vec<Bucket<Embedding, u32>> = Vec::new();
    let out = serve(&mut backend, none);
    assert!(out.deliveries.is_empty());
    assert_eq!(out.batches, 0);
    assert_eq!(backend.batch_calls, 0);
}

#[test]
fn serve_makes_no_call_for_an_empty_bucket() {
    let buckets = vec![
        Bucket { neighbors: 3, requests: Vec::new() },
        Bucket { neighbors: 1, requests: vec![IndexArguments::new([4.0f32, 0.0], 1, 3u32)] },
        Bucket { neighbors: 2, requests: Vec::new() },
    ];
    let mut backend = TenVectors::new();
    let out = serve(&mut backend, buckets);
    assert_eq!(out.batches, 1);
    assert_eq!(backend.batch_calls, 1);
    assert_eq!(backend.asked[0], (vec![[4.0, 0.0]], 1));
    assert_eq!(out.deliveries, vec![Delivery { sender: 3, reply: Some(Ok(vec![4])) }]);
}

#[test]
fn signal_turns_running_to_draining_and_is_never_taken_back() {
    let (_engine, mut worker, _requests) = start(16);
    worker.observe_shutdown(false);
    assert_eq!(worker.current_phase(), Phase::Running);
    worker.observe_shutdown(true);
    assert_eq!(worker.current_phase(), Phase::Draining);
    worker.observe_shutdown(false);
    assert_eq!(worker.current_phase(), Phase::Draining);
    worker.observe_shutdown(true);
    assert_eq!(worker.current_phase(), Phase::Draining);
}

#[test]
fn conclude_decides_by_phase_and_count() {
    let (_engine, mut worker, _requests) = start(16);
    assert_eq!(worker.conclude(0), Next::Idle);
    assert_eq!(worker.conclude(1), Next::Continue);
    assert_eq!(worker.conclude(8), Next::Continue);
    assert_eq!(worker.current_phase(), Phase::Running);
    worker.observe_shutdown(true);
    assert_eq!(worker.conclude(8), Next::Continue);
    assert_eq!(worker.current_phase(), Phase::Draining);
    assert_eq!(worker.conclude(7), Next::Exit);
    assert_eq!(worker.current_phase(), Phase::Stopped);
    assert_eq!(worker.conclude(8), Next::Exit);
    assert_eq!(worker.conclude(0), Next::Exit);
    assert_eq!(worker.current_phase(), Phase::Stopped);
}

#[test]
fn taking_stops_at_the_cap_and_gathering_groups_what_was_taken() {
    let (engine, worker, mut requests) = start(6);
    ask(&engine, 1, 1.0, 5);
    ask(&engine, 2, 2.0, 6);
    ask(&engine, 3, 3.0, 5);
    ask(&engine, 4, 4.0, 5);
    let taken = take(&worker, &mut requests);
    assert_eq!(taken.len(), 3);
    let buckets = BatchBuckets::gather(taken).into_buckets();
    assert_eq!(buckets.len(), 2);
    assert_eq!(buckets[0].neighbors, 5);
    assert_eq!(buckets[0].requests.iter().map(|r| r.sender).collect::<Vec<u32>>(), vec![1, 3]);
    assert_eq!(buckets[1].neighbors, 6);
    assert_eq!(buckets[1].requests.iter().map(|r| r.sender).collect::<Vec<u32>>(), vec![2]);
    let rest = take(&worker, &mut requests);
    assert_eq!(rest.len(), 1);
}

#[test]
fn wants_more_up_to_the_cap_unless_stopped() {
    let mut worker = Worker::new(BatchLimit::from_parallelism(6));
    assert!(worker.wants_more(0));
    assert!(worker.wants_more(2));
    assert!(!worker.wants_more(3));
    assert!(!worker.wants_more(usize::MAX));
    worker.observe_shutdown(true);
    assert!(worker.wants_more(2));
    assert!(!worker.wants_more(3));
    assert_eq!(worker.conclude(0), Next::Exit);
    assert!(!worker.wants_more(0));
    assert!(!worker.wants_more(2));
}

#[test]
fn pass_serves_what_it_is_handed_without_a_queue() {
    let mut worker = Worker::new(BatchLimit::from_parallelism(8));
    let taken = vec![
        IndexArguments::new([2.0f32, 0.0], 2, 1u32),
        IndexArguments::new([7.0, 0.0], 1, 2),
        IndexArguments::new([5.0, 0.0], 2, 3),
    ];
    let mut backend = TenVectors::new();
    let report = worker.pass(taken, &mut backend);
    assert_eq!(report.drained, 3);
    assert_eq!(report.batches, 2);
    assert_eq!(backend.batch_calls, 2);
    assert_eq!(
        report.deliveries,
        vec![
            Delivery { sender: 1, reply: Some(Ok(vec![2, 1])) },
            Delivery { sender: 3, reply: Some(Ok(vec![5, 4])) },
            Delivery { sender: 2, reply: Some(Ok(vec![7])) },
        ]
    );
    assert_eq!(report.next, Next::Continue);
}

#[test]
fn pass_of_more_than_a_capful_serves_all_of_it() {
    let mut worker = Worker::new(BatchLimit::from_parallelism(2));
    assert_eq!(worker.batch_limit(), 1);
    worker.observe_shutdown(true);
    let taken = vec![
        IndexArguments::new([2.0f32, 0.0], 1, 1u32),
        IndexArguments::new([7.0, 0.0], 1, 2),
    ];
    let mut backend = TenVectors::new();
    let report = worker.pass(taken, &mut backend);
    assert_eq!(report.drained, 2);
    assert_eq!(report.batches, 1);
    assert_eq!(report.deliveries.len(), 2);
    assert_eq!(report.next, Next::Continue);
    assert_eq!(worker.current_phase(), Phase::Draining);
}

#[test]
fn stopped_worker_answers_nothing_and_calls_nothing() {
    let mut worker = Worker::new(BatchLimit::from_parallelism(8));
    worker.observe_shutdown(true);
    assert_eq!(worker.conclude(0), Next::Exit);
    let taken = vec![
        IndexArguments::new([2.0f32, 0.0], 2, 1u32),
        IndexArguments::new([7.0, 0.0], 1, 2),
        IndexArguments::new([5.0, 0.0], 2, 3),
    ];
    let mut backend = TenVectors::new();
    let report = worker.pass(taken, &mut backend);
    assert_eq!(report.drained, 3);
    assert_eq!(report.batches, 0);
    assert_eq!(backend.batch_calls, 0);
    assert_eq!(
        report.deliveries,
        vec![
            Delivery { sender: 1, reply: None },
            Delivery { sender: 2, reply: None },
            Delivery { sender: 3, reply: None },
        ]
    );
    assert_eq!(report.next, Next::Exit);
    assert_eq!(worker.current_phase(), Phase::Stopped);
    assert_eq!(
        IndexEngine::<Embedding, u32>::answer(report.deliveries[0].reply.clone()),
        Err(IndexEngineError::NoNeighbors)
    );
}

#[test]
fn single_search_of_the_test_backend() {
    let mut backend = TenVectors::new();
    let found = backend.search(Query { embedding: [6.4, 0.0], neighbors: 3 });
    assert_eq!(found, Ok(vec![6, 7, 5]));
}
