//! The decisions of the batching coordinator: how a batch is gathered from the
//! requests that arrive, and the counters the coordinator keeps.
//!
//! The coordinator's loop waits on a queue; each answer of the queue is handed to
//! a [`BatchGatherer`], which says what to do next: ask the queue again without
//! waiting, wait up to the configured time, or process the batch.
use vstd::prelude::*;

verus! {

/// Configuration of the batching coordinator.
#[derive(Debug, Clone, Copy)]
pub struct BatchConfig {
    /// Largest number of requests in one batch.
    pub max_batch_size: usize,
    /// Longest wait, in milliseconds, to fill a batch.
    pub max_wait_ms: u64,
    /// Largest number of concurrent requests.
    pub max_concurrent: usize,
}

impl Default for BatchConfig {
    fn default() -> (r: BatchConfig)
        ensures
            r.max_batch_size == 8,
            r.max_wait_ms == 50,
            r.max_concurrent == 32,
    {
        BatchConfig { max_batch_size: 8, max_wait_ms: 50, max_concurrent: 32 }
    }
}

/// What the request queue answered.
pub enum Arrival<T> {
    /// A request was waiting when the queue was asked without waiting.
    Ready(T),
    /// Nothing was waiting.
    Empty,
    /// A request came while waiting.
    Arrived(T),
    /// The wait ran out, or the queue closed while waiting.
    TimedOut,
    /// The queue is closed.
    Disconnected,
}

/// What the coordinator's loop does next.
#[derive(Debug, Clone, Copy, PartialEq, Eq, Structural)]
pub enum BatchStep {
    /// Ask the queue for a request without waiting.
    TryReceive,
    /// Wait up to this many milliseconds for a request.
    WaitFor(u64),
    /// The batch is complete: process it.
    Process,
}

/// A batch being gathered: the requests so far, in the order they arrived.
pub struct BatchGatherer<T> {
    batch: Vec<T>,
    max_batch_size: usize,
    max_wait_ms: u64,
}

/// The step that follows a batch of `len` requests when no request is pending.
pub open spec fn step_after(len: nat, max_batch_size: nat) -> BatchStep {
    if len < max_batch_size {
        BatchStep::TryReceive
    } else {
        BatchStep::Process
    }
}

impl<T> BatchGatherer<T> {
    /// The requests gathered so far.
    pub closed spec fn items(&self) -> Seq<T> {
        self.batch@
    }

    /// The largest batch the configuration allows.
    pub closed spec fn limit(&self) -> nat {
        self.max_batch_size as nat
    }

    /// How long to wait for a request, in milliseconds.
    pub closed spec fn wait_ms(&self) -> u64 {
        self.max_wait_ms
    }

    /// A batch that starts with the request the loop waited for.
    pub fn start(first: T, config: &BatchConfig) -> (r: BatchGatherer<T>)
        ensures
            r.items() == seq![first],
            r.limit() == config.max_batch_size,
            r.wait_ms() == config.max_wait_ms,
    {
        let mut batch: Vec<T> = Vec::new();
        batch.push(first);
        BatchGatherer { batch, max_batch_size: config.max_batch_size, max_wait_ms: config.max_wait_ms }
    }

    /// The first step once the batch has started: ask for more while it is below
    /// the configured size.
    pub fn first_step(&self) -> (r: BatchStep)
        ensures
            r == step_after(self.items().len(), self.limit()),
    {
        if self.batch.len() < self.max_batch_size {
            BatchStep::TryReceive
        } else {
            BatchStep::Process
        }
    }

    /// Takes in what the queue answered and says what to do next. A request that
    /// came is added at the end; an empty queue is waited on; a wait that ran out
    /// or a closed queue ends the batch.
    pub fn step(&mut self, event: Arrival<T>) -> (r: BatchStep)
        ensures
            final(self).limit() == old(self).limit(),
            final(self).wait_ms() == old(self).wait_ms(),
            match event {
                Arrival::Ready(t) => final(self).items() == old(self).items().push(t) && r == step_after(
                    final(self).items().len(),
                    final(self).limit(),
                ),
                Arrival::Arrived(t) => final(self).items() == old(self).items().push(t) && r == step_after(
                    final(self).items().len(),
                    final(self).limit(),
                ),
                Arrival::Empty => final(self).items() == old(self).items() && r == BatchStep::WaitFor(
                    old(self).wait_ms(),
                ),
                Arrival::TimedOut => final(self).items() == old(self).items() && r == BatchStep::Process,
                Arrival::Disconnected => final(self).items() == old(self).items() && r == BatchStep::Process,
            },
    {
        match event {
            Arrival::Ready(t) => {
                self.batch.push(t);
                self.first_step()
            },
            Arrival::Arrived(t) => {
                self.batch.push(t);
                self.first_step()
            },
            Arrival::Empty => BatchStep::WaitFor(self.max_wait_ms),
            Arrival::TimedOut => BatchStep::Process,
            Arrival::Disconnected => BatchStep::Process,
        }
    }

    /// The number of requests gathered.
    pub fn len(&self) -> (r: usize)
        ensures
            r == self.items().len(),
    {
        self.batch.len()
    }

    /// The gathered requests, in the order they arrived.
    pub fn into_batch(self) -> (r: Vec<T>)
        ensures
            r@ == self.items(),
    {
        self.batch
    }
}

/// A batch the gatherer steps through while it asks for more holds at least one
/// request and no more than the configured size: starting from one request, a
/// request is added only after a step that asked for one, and a step asks only
/// below the size.
pub proof fn lemma_batch_bounded(len: nat, max_batch_size: nat)
    requires
        len >= 1,
        step_after(len, max_batch_size) == BatchStep::TryReceive,
    ensures
        1 <= len + 1 <= max_batch_size,
{
}

/// What the coordinator reports of its activity.
#[derive(Debug, Clone, Copy, PartialEq, Eq, Structural)]
pub struct CoordinatorStats {
    pub total_requests: u64,
    pub active_requests: u64,
    pub total_batches: u64,
    /// The requests of all batches together (the average batch size is this over
    /// `total_batches`).
    pub total_batch_items: u64,
}

/// The coordinator's counters; like the atomic counters they stand for, they wrap
/// around on overflow.
pub struct StatsCounters {
    total_requests: u64,
    active_requests: u64,
    total_batches: u64,
    total_batch_items: u64,
}

/// `a + b` wrapped around at 2^64.
pub open spec fn wrapped_sum(a: u64, b: u64) -> u64 {
    ((a + b) % 0x1_0000_0000_0000_0000int) as u64
}

/// `a - b` wrapped around at 2^64.
pub open spec fn wrapped_difference(a: u64, b: u64) -> u64 {
    ((a - b + 0x1_0000_0000_0000_0000int) % 0x1_0000_0000_0000_0000int) as u64
}

impl StatsCounters {
    /// The counters as they would be reported.
    pub closed spec fn view_stats(&self) -> CoordinatorStats {
        CoordinatorStats {
            total_requests: self.total_requests,
            active_requests: self.active_requests,
            total_batches: self.total_batches,
            total_batch_items: self.total_batch_items,
        }
    }

    /// Every request that was counted was counted in a batch.
    pub closed spec fn wf(&self) -> bool {
        self.total_requests == self.total_batch_items
    }

    /// All counters at zero.
    pub fn new() -> (r: StatsCounters)
        ensures
            r.wf(),
            r.view_stats() == (CoordinatorStats {
                total_requests: 0,
                active_requests: 0,
                total_batches: 0,
                total_batch_items: 0,
            }),
    {
        StatsCounters { total_requests: 0, active_requests: 0, total_batches: 0, total_batch_items: 0 }
    }

    /// A request was submitted and is in flight.
    pub fn request_started(&mut self)
        requires
            old(self).wf(),
        ensures
            final(self).wf(),
            final(self).view_stats() == (CoordinatorStats {
                active_requests: wrapped_sum(old(self).view_stats().active_requests, 1),
                ..old(self).view_stats()
            }),
    {
        self.active_requests = self.active_requests.wrapping_add(1);
    }

    /// A request in flight got its answer.
    pub fn request_finished(&mut self)
        requires
            old(self).wf(),
        ensures
            final(self).wf(),
            final(self).view_stats() == (CoordinatorStats {
                active_requests: wrapped_difference(old(self).view_stats().active_requests, 1),
                ..old(self).view_stats()
            }),
    {
        self.active_requests = self.active_requests.wrapping_sub(1);
    }

    /// A batch of `size` requests was formed.
    pub fn batch_formed(&mut self, size: u64)
        requires
            old(self).wf(),
        ensures
            final(self).wf(),
            final(self).view_stats() == (CoordinatorStats {
                total_requests: wrapped_sum(old(self).view_stats().total_requests, size),
                active_requests: old(self).view_stats().active_requests,
                total_batches: wrapped_sum(old(self).view_stats().total_batches, 1),
                total_batch_items: wrapped_sum(old(self).view_stats().total_batch_items, size),
            }),
    {
        self.total_batches = self.total_batches.wrapping_add(1);
        self.total_batch_items = self.total_batch_items.wrapping_add(size);
        self.total_requests = self.total_requests.wrapping_add(size);
    }

    /// The counters as reported.
    pub fn stats(&self) -> (r: CoordinatorStats)
        ensures
            r == self.view_stats(),
    {
        CoordinatorStats {
            total_requests: self.total_requests,
            active_requests: self.active_requests,
            total_batches: self.total_batches,
            total_batch_items: self.total_batch_items,
        }
    }
}

/// Every request the coordinator reports is part of a batch it reports: whatever
/// the counters went through, the two totals agree.
pub proof fn lemma_requests_are_batch_items(c: StatsCounters)
    requires
        c.wf(),
    ensures
        c.view_stats().total_requests == c.view_stats().total_batch_items,
{
}

} // verus!
