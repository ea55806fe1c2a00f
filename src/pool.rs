//! The decisions of a fixed-size worker pool: how many workers to start, how a worker reacts
//! to a message, and which workers a shutdown still has to stop and join.
//!
//! The pool hands jobs to its workers over one first-in first-out queue. A shutdown puts one
//! terminate message per worker on the queue, after every job, then joins every worker.
use vstd::prelude::*;

verus! {

/// The number of workers to start for a request of `desired_size`, on a machine that runs
/// `available` threads at once: never more than either.
pub fn number_of_threads_to_use(desired_size: usize, available: usize) -> (r: usize)
    requires
        desired_size > 0,
        available > 0,
    ensures
        r == if desired_size < available { desired_size } else { available },
        0 < r <= desired_size,
        r <= available,
{
    if desired_size < available {
        desired_size
    } else {
        available
    }
}

/// What a worker is doing.
#[derive(Clone, Copy, Debug, PartialEq, Eq, Structural)]
pub enum WorkerState {
    /// Waiting for the next message.
    Idle,
    /// Running a job it took from the queue.
    Executing,
    /// Stopped for good.
    Terminated,
}

/// The kind of a message on the pool's queue.
#[derive(Clone, Copy, Debug, PartialEq, Eq, Structural)]
pub enum MessageKind {
    NewJob,
    Terminate,
}

/// The state of a worker after it took `message` off the queue while `state`.
pub fn on_message(state: WorkerState, message: MessageKind) -> (r: WorkerState)
    ensures
        state is Terminated ==> r is Terminated,
        state is Idle && message is NewJob ==> r is Executing,
        state is Idle && message is Terminate ==> r is Terminated,
        state is Executing ==> r is Executing,
{
    match state {
        WorkerState::Idle => match message {
            MessageKind::NewJob => WorkerState::Executing,
            MessageKind::Terminate => WorkerState::Terminated,
        },
        other => other,
    }
}

/// The state of a worker once the job it ran while `state` has returned.
pub fn on_job_finished(state: WorkerState) -> (r: WorkerState)
    ensures
        state is Executing ==> r is Idle,
        !(state is Executing) ==> r == state,
{
    match state {
        WorkerState::Executing => WorkerState::Idle,
        other => other,
    }
}

/// The workers of `live` that still hold a thread to stop and join, in increasing order.
pub open spec fn live_workers(live: Seq<bool>) -> Seq<usize>
    decreases live.len(),
{
    if live.len() == 0 {
        Seq::empty()
    } else {
        let rest = live_workers(live.drop_last());
        if live.last() {
            rest.push((live.len() - 1) as usize)
        } else {
            rest
        }
    }
}

/// `n` workers, each live if `live`.
pub open spec fn all_workers(n: nat, live: bool) -> Seq<bool> {
    Seq::new(n, |i: int| live)
}

/// Which workers of a pool still hold a running thread.
pub struct WorkerSlots {
    pub live: Vec<bool>,
}

impl WorkerSlots {
    /// A pool of `count` workers, each with a running thread.
    pub fn new(count: usize) -> (s: WorkerSlots)
        ensures
            s.live@ == all_workers(count as nat, true),
    {
        let mut live: Vec<bool> = Vec::with_capacity(count);
        let mut i: usize = 0;
        while i < count
            invariant
                0 <= i <= count,
                live@ == Seq::new(i as nat, |x: int| true),
            decreases count - i,
        {
            live.push(true);
            i = i + 1;
        }
        WorkerSlots { live }
    }

    /// Begins a shutdown: returns the workers still to be sent a terminate message and
    /// joined, and marks every worker as stopped, so that no worker is joined twice.
    pub fn shutdown(&mut self) -> (r: Vec<usize>)
        ensures
            r@ == live_workers(old(self).live@),
            final(self).live@ == all_workers(old(self).live@.len(), false),
    {
        let n = self.live.len();
        let mut r: Vec<usize> = Vec::new();
        let mut i: usize = 0;
        while i < n
            invariant
                n == self.live@.len(),
                n == old(self).live@.len(),
                0 <= i <= n,
                r@ == live_workers(old(self).live@.subrange(0, i as int)),
                forall|l: int| 0 <= l < i ==> !#[trigger] self.live@[l],
                forall|l: int| i <= l < n ==> #[trigger] self.live@[l] == old(self).live@[l],
            decreases n - i,
        {
            proof {
                let s = old(self).live@.subrange(0, i + 1);
                assert(s.drop_last() =~= old(self).live@.subrange(0, i as int));
            }
            if self.live[i] {
                r.push(i);
            }
            self.live.set(i, false);
            i = i + 1;
        }
        proof {
            assert(old(self).live@.subrange(0, n as int) =~= old(self).live@);
            assert(self.live@ =~= all_workers(n as nat, false));
        }
        r
    }
}

/// No worker is named live where none is.
proof fn lemma_none_live(n: nat)
    ensures
        live_workers(all_workers(n, false)).len() == 0,
    decreases n,
{
    if n > 0 {
        assert(all_workers(n, false).drop_last() =~= all_workers((n - 1) as nat, false));
        lemma_none_live((n - 1) as nat);
    }
}

/// Every worker of a fresh pool is named live, each once, in order.
proof fn lemma_all_live(n: nat)
    requires
        n <= usize::MAX,
    ensures
        live_workers(all_workers(n, true)).len() == n,
        forall|i: int| 0 <= i < n ==> #[trigger] live_workers(all_workers(n, true))[i] == i,
    decreases n,
{
    if n > 0 {
        assert(all_workers(n, true).drop_last() =~= all_workers((n - 1) as nat, true));
        assert(all_workers(n, true).last());
        lemma_all_live((n - 1) as nat);
        let prev = live_workers(all_workers((n - 1) as nat, true));
        assert(live_workers(all_workers(n, true)) == prev.push((n - 1) as usize));
        assert forall|i: int| 0 <= i < n implies #[trigger] live_workers(all_workers(n, true))[i] == i by {
            if i < n - 1 {
                assert(prev[i] == i);
            }
        }
    }
}

/// The first shutdown of a pool of `count` workers stops and joins each worker once; a second
/// shutdown finds none left, so it sends nothing and joins nothing.
pub proof fn lemma_shutdown_twice(count: nat, first: Seq<usize>, second: Seq<usize>)
    requires
        count <= usize::MAX,
        first == live_workers(all_workers(count, true)),
        second == live_workers(all_workers(count, false)),
    ensures
        first.len() == count,
        forall|i: int| 0 <= i < count ==> #[trigger] first[i] == i,
        second.len() == 0,
{
    lemma_all_live(count);
    lemma_none_live(count);
}

/// The queue at shutdown: `jobs` jobs, then one terminate message for each of `workers` workers.
pub open spec fn shutdown_queue(jobs: nat, workers: nat) -> Seq<MessageKind> {
    Seq::new(jobs + workers, |i: int| if i < jobs { MessageKind::NewJob } else { MessageKind::Terminate })
}

/// The number of terminate messages in `q`.
pub open spec fn terminates_in(q: Seq<MessageKind>) -> nat
    decreases q.len(),
{
    if q.len() == 0 {
        0
    } else {
        terminates_in(q.drop_last()) + if q.last() is Terminate { 1nat } else { 0nat }
    }
}

/// The number of jobs in `q`.
pub open spec fn jobs_in(q: Seq<MessageKind>) -> nat
    decreases q.len(),
{
    if q.len() == 0 {
        0
    } else {
        jobs_in(q.drop_last()) + if q.last() is NewJob { 1nat } else { 0nat }
    }
}

proof fn lemma_prefix_counts(jobs: nat, workers: nat, taken: nat)
    requires
        taken <= jobs + workers,
    ensures
        terminates_in(shutdown_queue(jobs, workers).take(taken as int)) == if taken > jobs { taken - jobs } else { 0 },
        jobs_in(shutdown_queue(jobs, workers).take(taken as int)) == if taken > jobs { jobs } else { taken },
    decreases taken,
{
    if taken > 0 {
        let q = shutdown_queue(jobs, workers);
        assert(q.take(taken as int).drop_last() =~= q.take(taken - 1));
        lemma_prefix_counts(jobs, workers, (taken - 1) as nat);
    }
}

/// Workers take messages from the front of the queue, and a worker stops at the first
/// terminate message it takes. When all `workers` workers have stopped, the messages taken
/// hold `workers` terminate messages; all jobs came before them, so every job was taken and
/// ran before the shutdown's joins returned.
pub proof fn lemma_shutdown_runs_every_job(jobs: nat, workers: nat, taken: nat)
    requires
        workers > 0,
        taken <= jobs + workers,
        terminates_in(shutdown_queue(jobs, workers).take(taken as int)) == workers,
    ensures
        jobs_in(shutdown_queue(jobs, workers).take(taken as int)) == jobs,
        taken == jobs + workers,
{
    lemma_prefix_counts(jobs, workers, taken);
}

} // verus!
