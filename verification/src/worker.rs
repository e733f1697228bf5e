//! The batching worker: the single caller of the backend, and the one that
//! decides how the single consumer of the ingress queue goes about its work.
//!
//! The worker runs in passes.  Before a pass it takes note of the shutdown
//! signal.  For a pass, requests are taken off the queue, in queue order and
//! without waiting, for as long as [`Worker::wants_more`] says so and the
//! queue has one ready.  The worker groups them by neighbour count and
//! serves the buckets in the order in which their first requests arrived,
//! one batched backend call each.  After a pass it decides whether the loop
//! goes on, pauses or ends.
//!
//! Touching the queue and waiting are left to the caller of
//! [`Worker::pass`]: taking requests off the queue, completing the handles
//! of the deliveries, pausing after an idle pass and looking at the shutdown
//! signal all happen around a pass.

use crate::bucket::{grouped, lemma_grouped_sizes, pending, BatchBuckets};
use crate::delivery::{
    lemma_one_call_per_bucket, serve, served, settle, unanswered, Delivery, Outcome,
};
use crate::index::service::SearchService;
use crate::request::IndexArguments;
use vstd::prelude::*;

verus! {

/// Where the worker stands with respect to shutdown.
#[derive(Debug, Clone, Copy, PartialEq, Eq, Structural)]
pub enum Phase {
    /// No shutdown signal has been seen.
    Running,
    /// The shutdown signal has been seen; what is still on the queue is
    /// being served.
    Draining,
    /// The worker has finished and touches the queue no more.
    Stopped,
}

/// What the worker's loop does after a pass.
#[derive(Debug, Clone, Copy, PartialEq, Eq, Structural)]
pub enum Next {
    /// Start the next pass at once.
    Continue,
    /// The queue was empty: wait a moment before the next pass.
    Idle,
    /// Leave the loop and drop the consuming end, which closes the queue.
    Exit,
}

/// The phase after the shutdown signal was looked at: a fired signal turns a
/// running worker to draining, and nothing turns a worker back.
pub open spec fn phase_after_signal(phase: Phase, fired: bool) -> Phase {
    if phase == Phase::Running && fired {
        Phase::Draining
    } else {
        phase
    }
}

/// The phase after a pass that was handed `drained` requests under the cap
/// `limit`: a draining worker stops once a pass has found the queue empty,
/// that is, has got fewer requests than the cap allows.
pub open spec fn phase_after_pass(phase: Phase, drained: nat, limit: nat) -> Phase {
    if phase == Phase::Draining && drained < limit {
        Phase::Stopped
    } else {
        phase
    }
}

/// What the loop does after such a pass: it ends with a stopped worker,
/// pauses when a running worker found nothing to do, and goes on otherwise.
pub open spec fn next_after_pass(phase: Phase, drained: nat, limit: nat) -> Next {
    match phase_after_pass(phase, drained, limit) {
        Phase::Stopped => Next::Exit,
        Phase::Draining => Next::Continue,
        Phase::Running => if drained == 0 {
            Next::Idle
        } else {
            Next::Continue
        },
    }
}

/// The most requests one pass drains, for a given degree of parallelism:
/// half of it, and at least one.
pub open spec fn batch_limit(max_parallelism: usize) -> usize {
    if max_parallelism / 2 == 0 {
        1
    } else {
        max_parallelism / 2
    }
}

/// The cap on the requests of one pass.  It bounds how long a request can
/// wait behind the batch in front of it and how much a burst can pile up in
/// one pass.  A cap is never zero, so a pass can always take a request.
#[derive(Debug, Clone, Copy, PartialEq, Eq)]
pub struct BatchLimit {
    most: usize,
}

impl View for BatchLimit {
    type V = usize;

    closed spec fn view(&self) -> usize {
        self.most
    }
}

impl BatchLimit {
    #[verifier::type_invariant]
    spec fn positive(&self) -> bool {
        self.most >= 1
    }

    /// The cap for a given degree of parallelism.
    pub fn from_parallelism(max_parallelism: usize) -> (limit: Self)
        ensures
            limit@ == batch_limit(max_parallelism),
    {
        let half = max_parallelism / 2;
        if half == 0 {
            BatchLimit { most: 1 }
        } else {
            BatchLimit { most: half }
        }
    }

    /// The cap as a number, which is at least one.
    pub fn get(&self) -> (most: usize)
        ensures
            most == self@,
            most >= 1,
    {
        proof {
            use_type_invariant(self);
        }
        self.most
    }
}

/// What one pass of the worker did.
pub struct PassReport<R> {
    /// One delivery per request of the pass, bucket by bucket.
    pub deliveries: Vec<Delivery<R>>,
    /// How many requests the pass was handed.
    pub drained: usize,
    /// How many batched backend calls the pass made: one per bucket.
    pub batches: usize,
    /// What the loop does next.
    pub next: Next,
}

/// The worker's standing between passes: its cap and its phase.
#[derive(Debug)]
pub struct Worker {
    limit: BatchLimit,
    phase: Phase,
}

impl Worker {
    /// The most requests one pass takes.
    pub closed spec fn limit(&self) -> usize {
        self.limit@
    }

    /// Where the worker stands with respect to shutdown.
    pub closed spec fn phase(&self) -> Phase {
        self.phase
    }

    /// A running worker with the given cap.
    pub fn new(limit: BatchLimit) -> (worker: Self)
        ensures
            worker.limit() == limit@,
            worker.phase() == Phase::Running,
    {
        Worker { limit, phase: Phase::Running }
    }

    /// The most requests one pass takes.
    pub fn batch_limit(&self) -> (limit: usize)
        ensures
            limit == self.limit(),
            limit >= 1,
    {
        self.limit.get()
    }

    /// Where the worker stands with respect to shutdown.
    pub fn current_phase(&self) -> (phase: Phase)
        ensures
            phase == self.phase(),
    {
        self.phase
    }

    /// Takes note of the shutdown signal as it was found before a pass.
    pub fn observe_shutdown(&mut self, fired: bool)
        ensures
            final(self).phase() == phase_after_signal(old(self).phase(), fired),
            final(self).limit() == old(self).limit(),
    {
        if fired {
            match self.phase {
                Phase::Running => {
                    self.phase = Phase::Draining;
                },
                _ => {},
            }
        }
    }

    /// Whether the pass in the making takes one more request off the queue,
    /// having taken `taken` so far: a stopped worker takes none, and no
    /// worker takes more than its cap.
    pub fn wants_more(&self, taken: usize) -> (more: bool)
        ensures
            more == (self.phase() != Phase::Stopped && taken < self.limit()),
    {
        match self.phase {
            Phase::Stopped => false,
            _ => taken < self.limit.get(),
        }
    }

    /// Decides, after a pass that was handed `drained` requests, whether the
    /// loop goes on, pauses or ends.
    pub fn conclude(&mut self, drained: usize) -> (next: Next)
        ensures
            final(self).limit() == old(self).limit(),
            final(self).phase() == phase_after_pass(
                old(self).phase(),
                drained as nat,
                old(self).limit() as nat,
            ),
            next == next_after_pass(old(self).phase(), drained as nat, old(self).limit() as nat),
    {
        match self.phase {
            Phase::Stopped => Next::Exit,
            Phase::Draining => {
                if drained < self.limit.get() {
                    self.phase = Phase::Stopped;
                    Next::Exit
                } else {
                    Next::Continue
                }
            },
            Phase::Running => {
                if drained == 0 {
                    Next::Idle
                } else {
                    Next::Continue
                }
            },
        }
    }

    /// One pass over the requests that were taken off the queue for it, in
    /// the order in which they were taken: group them by neighbour count,
    /// serve every bucket with one batched backend call, and decide what the
    /// loop does next.
    ///
    /// The backend is borrowed exclusively for the pass, so no other call
    /// can be in flight on it.  It decides the outcomes of the calls;
    /// whatever they are, the pass makes one call per bucket of `taken` and
    /// returns exactly the deliveries that [`served`] gives, one for every
    /// request.  A stopped worker calls nothing and answers nothing: every
    /// request it is handed is left without a reply.
    pub fn pass<E: Copy, R, S: SearchService<E>>(
        &mut self,
        taken: Vec<IndexArguments<E, R>>,
        backend: &mut S,
    ) -> (report: PassReport<R>)
        ensures
            final(self).limit() == old(self).limit(),
            final(self).phase() == phase_after_pass(
                old(self).phase(),
                taken@.len(),
                old(self).limit() as nat,
            ),
            report.next == next_after_pass(
                old(self).phase(),
                taken@.len(),
                old(self).limit() as nat,
            ),
            report.drained == taken@.len(),
            report.deliveries@.len() == taken@.len(),
            old(self).phase() == Phase::Stopped ==> {
                &&& report.batches == 0
                &&& report.deliveries@ == unanswered(taken@)
            },
            old(self).phase() != Phase::Stopped ==> {
                &&& report.batches == grouped(taken@).len()
                &&& exists|outcomes: Seq<Outcome>|
                    outcomes.len() == grouped(taken@).len() && report.deliveries@
                        == #[trigger] served(grouped(taken@), outcomes)
                &&& forall|i: int|
                    0 <= i < taken@.len() ==> (#[trigger] report.deliveries@[i]).sender == pending(
                        grouped(taken@),
                    )[i].sender
            },
    {
        let drained = taken.len();
        match self.phase {
            Phase::Stopped => {
                let deliveries = settle(taken, Ok(Vec::new()));
                assert(deliveries@ =~= unanswered(taken@));
                PassReport { deliveries, drained, batches: 0, next: Next::Exit }
            },
            _ => {
                let buckets = BatchBuckets::gather(taken).into_buckets();
                let out = serve(backend, buckets);
                let next = self.conclude(drained);
                proof {
                    lemma_one_call_per_bucket(taken@);
                    lemma_grouped_sizes(taken@);
                }
                PassReport { deliveries: out.deliveries, drained, batches: out.batches, next }
            },
        }
    }
}

/// Shutdown is final.  A fired signal takes a running worker out of
/// running; nothing brings a worker back to running; a stopped worker stays
/// stopped; and the loop ends exactly when the worker has stopped, which a
/// draining worker does after the first pass that found the queue empty.
pub proof fn lemma_shutdown_is_final(phase: Phase, fired: bool, drained: nat, limit: nat)
    ensures
        fired ==> phase_after_signal(phase, fired) != Phase::Running,
        phase != Phase::Running ==> phase_after_signal(phase, fired) == phase,
        phase != Phase::Running ==> phase_after_pass(phase, drained, limit) != Phase::Running,
        phase == Phase::Stopped ==> phase_after_pass(phase, drained, limit) == Phase::Stopped,
        phase == Phase::Draining ==> (phase_after_pass(phase, drained, limit) == Phase::Stopped
            <==> drained < limit),
        next_after_pass(phase, drained, limit) == Next::Exit <==> phase_after_pass(
            phase,
            drained,
            limit,
        ) == Phase::Stopped,
        next_after_pass(phase, drained, limit) == Next::Idle <==> phase == Phase::Running
            && drained == 0,
{
}

} // verus!
