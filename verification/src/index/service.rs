//! The capability a search backend offers.

use crate::index::error::IndexSearchError;
use vstd::prelude::*;

verus! {

/// A single query as a backend sees it.
pub struct Query<E> {
    pub embedding: E,
    pub neighbors: usize,
}

/// A nearest-neighbour search backend over embeddings of type `E`.
///
/// A backend answers with identifiers of its own choosing.  Nothing is
/// promised here about what it returns: how many lists, how long they are
/// and which identifiers they hold is the backend's policy, and the
/// scheduler passes whatever comes back through unchanged.
pub trait SearchService<E> {
    /// Searches the neighbours of one embedding.
    fn search(&mut self, query: Query<E>) -> Result<Vec<i64>, IndexSearchError>;

    /// Searches the neighbours of every embedding of `query`, all with the
    /// same neighbour count.  A well-behaved backend returns one list per
    /// embedding, in the order of `query`.
    fn search_batch(&mut self, query: &[E], neighbors: usize) -> Result<
        Vec<Vec<i64>>,
        IndexSearchError,
    >;
}

} // verus!
