//! The ingress queue: a lock-free queue with many producers and one
//! consumer, provided by the `nolock` crate.
//!
//! The library creates the queue and places requests on it.  It does not
//! take requests off it: while producers are at work the crate's dequeue can
//! panic, and nothing in this library may.  The consuming end is handed to
//! the program around the library, which takes the requests off and hands
//! them to the worker.

use crate::engine::QueueError;
use vstd::prelude::*;

verus! {

/// The consuming end of the queue, `nolock::queues::mpsc::jiffy::AsyncReceiver`.
#[verifier::external_type_specification]
#[verifier::external_body]
#[verifier::reject_recursive_types(T)]
pub struct ExAsyncReceiver<T>(nolock::queues::mpsc::jiffy::AsyncReceiver<T>);

/// A producing end of the queue, `nolock::queues::mpsc::jiffy::AsyncSender`.
#[verifier::external_type_specification]
#[verifier::external_body]
#[verifier::reject_recursive_types(T)]
pub struct ExAsyncSender<T>(nolock::queues::mpsc::jiffy::AsyncSender<T>);

/// Calls `nolock::queues::mpsc::jiffy::async_queue`, which creates a new
/// queue and returns its two ends.  Nothing is claimed about them.
#[verifier::external_body]
pub(crate) fn open<T>() -> (ends: (
    nolock::queues::mpsc::jiffy::AsyncReceiver<T>,
    nolock::queues::mpsc::jiffy::AsyncSender<T>,
)) {
    nolock::queues::mpsc::jiffy::async_queue()
}

/// Calls `AsyncSender::enqueue`, which places the item on the queue unless
/// the consuming end is gone.  On failure the item is dropped and the
/// crate's reason is handed on, variant by variant.
///
/// Claimed: the only failure is `Closed`.  The queue is unbounded, and the
/// crate's `enqueue` returns an error at one place only, after it has found
/// the queue closed.  Nothing is claimed about when that happens.
#[verifier::external_body]
pub(crate) fn enqueue<T>(
    sender: &nolock::queues::mpsc::jiffy::AsyncSender<T>,
    item: T,
) -> (outcome: Result<(), QueueError>)
    ensures
        outcome matches Err(error) ==> error == QueueError::Closed,
{
    match sender.enqueue(item) {
        Ok(()) => Ok(()),
        Err((_, nolock::queues::EnqueueError::Full)) => Err(QueueError::Full),
        Err((_, nolock::queues::EnqueueError::Closed)) => Err(QueueError::Closed),
    }
}

} // verus!
