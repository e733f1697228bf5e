//! A request-batching scheduler in front of a nearest-neighbour search
//! backend.
//!
//! A search backend is a resource that serves one call at a time.  So that
//! many concurrent callers can share it, their requests go through a queue
//! to a single worker, which serves them in passes:
//!
//! * Callers hand requests to an [`engine::IndexEngine`], which places them
//!   on a lock-free ingress queue and never waits for the worker.
//! * For each pass, requests are taken off the queue for as long as the
//!   [`worker::Worker`] wants more, at most a capful.  The worker groups them
//!   by the number of neighbours they ask for ([`bucket`]).
//! * For each group it makes one batched backend call and matches the lists
//!   that come back to the requests by position ([`delivery`]).
//! * A shutdown signal turns the worker from running to draining; it stops
//!   after the first pass that finds the queue empty.
//!
//! The library decides; it does not wait, and it does not take requests off
//! the queue.  Taking them off, completing a caller's handle, pausing after
//! an idle pass and watching for the shutdown signal are left to the program
//! around it, which calls [`worker::Worker::pass`] once per pass.
//!
//! # What is proved
//!
//! Every function here is verified against its contract, and the laws that
//! tie the functions together are stated as proof functions next to them:
//! requests with the same neighbour count share one bucket and one call;
//! inside a bucket, results reach requests in arrival order; every request
//! of a pass gets exactly one delivery; a backend's lists are passed through
//! unchanged; a failed call reaches every request of its bucket; shutdown is
//! final.
//!
//! # What is assumed
//!
//! The ingress queue is the `nolock` crate's.  The library creates it and
//! places requests on it through two functions that are not verified.  They
//! claim one thing: that the queue refuses a request for no other reason
//! than being closed.  The text of a search failure is shown by the standard
//! library's `Debug`, of which one thing is claimed: that what it gives
//! depends on the text alone.  A backend is any implementation of
//! [`index::service::SearchService`], about which nothing is assumed.

pub mod bucket;
pub mod delivery;
pub mod engine;
pub mod index;
mod queue;
pub mod request;
pub mod worker;
