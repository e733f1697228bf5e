//! A request waiting to be served, and the reply its caller waits for.

use crate::index::error::IndexSearchError;
use vstd::prelude::*;

verus! {

/// What travels back to a caller on its handle: the identifiers of the
/// neighbours, or the failure of the backend call.
pub type Reply = Result<Vec<i64>, IndexSearchError>;

/// One pending query: the vector to search for, how many neighbours the
/// caller wants, and the handle on which the caller waits for its answer.
///
/// The scheduler never looks inside `embedding` or `sender`; it only carries
/// them from the queue to the backend call and to the delivery.
#[derive(Debug, PartialEq)]
pub struct IndexArguments<E, R> {
    pub embedding: E,
    pub neighbors: usize,
    pub sender: R,
}

impl<E, R> IndexArguments<E, R> {
    /// Builds the request a caller places on the queue.
    pub fn new(embedding: E, neighbors: usize, sender: R) -> (request: Self)
        ensures
            request.embedding == embedding,
            request.neighbors == neighbors,
            request.sender == sender,
    {
        IndexArguments { embedding, neighbors, sender }
    }
}

} // verus!
