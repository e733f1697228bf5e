//! The facade through which callers reach the scheduler.

use crate::index::error::IndexSearchError;
use crate::queue;
use crate::request::{IndexArguments, Reply};
use crate::worker::{batch_limit, BatchLimit, Phase, Worker};
use nolock::queues::mpsc::jiffy::{AsyncReceiver, AsyncSender};
use vstd::prelude::*;
use vstd::string::*;

verus! {

/// Why the ingress queue did not take a request.
#[derive(Debug, Clone, Copy, PartialEq, Eq, Structural)]
pub enum QueueError {
    /// The queue has no room for the request.  The ingress queue is
    /// unbounded and never answers so.
    Full,
    /// The consuming end is gone: nothing placed on the queue would ever be
    /// served.
    Closed,
}

/// Why a query got no neighbours.
#[derive(Debug, PartialEq, Eq)]
pub enum IndexEngineError {
    /// The request was not accepted onto the ingress queue.
    QueueError(QueueError),
    /// The backend call for the request's bucket failed.
    IndexSearchError(IndexSearchError),
    /// The request was accepted but no answer was ever produced for it.
    NoNeighbors,
}

impl Clone for IndexEngineError {
    fn clone(&self) -> (copy: IndexEngineError)
        ensures
            copy == *self,
    {
        match self {
            IndexEngineError::QueueError(error) => IndexEngineError::QueueError(*error),
            IndexEngineError::IndexSearchError(error) => IndexEngineError::IndexSearchError(
                error.clone(),
            ),
            IndexEngineError::NoNeighbors => IndexEngineError::NoNeighbors,
        }
    }
}

impl QueueError {
    /// The name of the variant.
    pub open spec fn spec_name(self) -> Seq<char> {
        match self {
            QueueError::Full => "Full"@,
            QueueError::Closed => "Closed"@,
        }
    }
}

impl IndexEngineError {
    /// What [`IndexEngineError::message`] returns.
    pub open spec fn spec_message(self) -> Seq<char> {
        match self {
            IndexEngineError::QueueError(error) => "QueueError "@ + error.spec_name(),
            IndexEngineError::IndexSearchError(error) => "IndexSearchError "@
                + error.spec_debug_text(),
            IndexEngineError::NoNeighbors => "IndexEngine: NoNeighbors"@,
        }
    }

    /// The text shown to a user for this failure.
    pub fn message(&self) -> (text: String)
        ensures
            text@ == self.spec_message(),
    {
        match self {
            IndexEngineError::QueueError(error) => {
                let name = match error {
                    QueueError::Full => "Full",
                    QueueError::Closed => "Closed",
                };
                String::from_str("QueueError ").concat(name)
            },
            IndexEngineError::IndexSearchError(error) => {
                let detail = error.debug_text();
                String::from_str("IndexSearchError ").concat(detail.as_str())
            },
            IndexEngineError::NoNeighbors => String::from_str("IndexEngine: NoNeighbors"),
        }
    }
}

/// What [`IndexEngine::accepted`] makes of the queue's answer.
pub open spec fn spec_accepted(outcome: Result<(), QueueError>) -> Result<(), IndexEngineError> {
    match outcome {
        Ok(()) => Ok(()),
        Err(error) => Err(IndexEngineError::QueueError(error)),
    }
}

/// What [`IndexEngine::answer`] makes of what a caller's handle received.
pub open spec fn spec_answer(reply: Option<Reply>) -> Result<Vec<i64>, IndexEngineError> {
    match reply {
        Some(Ok(neighbors)) => Ok(neighbors),
        Some(Err(error)) => Err(IndexEngineError::IndexSearchError(error)),
        None => Err(IndexEngineError::NoNeighbors),
    }
}

/// The entry point for callers: the producing end of the ingress queue.
#[verifier::reject_recursive_types(E)]
#[verifier::reject_recursive_types(R)]
pub struct IndexEngine<E, R> {
    index_queue: AsyncSender<IndexArguments<E, R>>,
}

impl<E, R> IndexEngine<E, R> {
    /// Creates the ingress queue and the worker that goes with it.  Returned
    /// are the engine, on which callers place requests; the worker, running,
    /// with a cap of `batch_limit(max_parallelism)` requests per pass; and
    /// the consuming end of the queue, off which the requests for the
    /// worker's passes are taken.
    pub fn new(max_parallelism: usize) -> (parts: (
        IndexEngine<E, R>,
        Worker,
        AsyncReceiver<IndexArguments<E, R>>,
    ))
        ensures
            parts.1.limit() == batch_limit(max_parallelism),
            parts.1.phase() == Phase::Running,
    {
        let limit = BatchLimit::from_parallelism(max_parallelism);
        let (receiver, sender) = queue::open();
        (IndexEngine { index_queue: sender }, Worker::new(limit), receiver)
    }

    /// Places a request on the ingress queue without waiting for the worker.
    ///
    /// Whether the queue takes the request depends on whether its consuming
    /// end is still there.  Either the request is accepted, or the queue is closed
    /// and the request is not on it; [`IndexEngine::accepted`] says which
    /// answer of the queue gives which result.
    pub fn enqueue(&self, request: IndexArguments<E, R>) -> (result: Result<(), IndexEngineError>)
        ensures
            result == Ok::<(), IndexEngineError>(()) || result == Err::<(), IndexEngineError>(
                IndexEngineError::QueueError(QueueError::Closed),
            ),
    {
        Self::accepted(queue::enqueue(&self.index_queue, request))
    }

    /// Turns the queue's answer to an enqueue into the result the caller
    /// sees.
    pub fn accepted(outcome: Result<(), QueueError>) -> (result: Result<(), IndexEngineError>)
        ensures
            result == spec_accepted(outcome),
    {
        match outcome {
            Ok(()) => Ok(()),
            Err(error) => Err(IndexEngineError::QueueError(error)),
        }
    }

    /// Turns what a caller's handle received into the result of the query:
    /// the neighbours, the backend's failure, or, where the handle was
    /// dropped without a value, the report that no answer was produced.
    pub fn answer(reply: Option<Reply>) -> (result: Result<Vec<i64>, IndexEngineError>)
        ensures
            result == spec_answer(reply),
    {
        match reply {
            Some(Ok(neighbors)) => Ok(neighbors),
            Some(Err(error)) => Err(IndexEngineError::IndexSearchError(error)),
            None => Err(IndexEngineError::NoNeighbors),
        }
    }
}

} // verus!
