use vstd::prelude::*;

use std::collections::VecDeque;

use crate::dto::{Run, RunJob, RunJobResult, RunStatus};
use crate::errors::{admission_error_to_service, AdmissionError, ServiceError, ServiceResult};
use crate::settings::{at_least_one, effective_limit, PollingSettings};

verus! {

/// The abstract state of a worker pool: the jobs waiting in arrival order,
/// the queue's capacity, the job each worker is executing, and whether the
/// pool has been torn down.
pub struct PoolView {
    pub pending: Seq<RunJob>,
    pub capacity: nat,
    pub slots: Seq<Option<RunJob>>,
    pub closed: bool,
}

impl PoolView {
    pub open spec fn wf(self) -> bool {
        &&& self.capacity >= 1
        &&& self.pending.len() <= self.capacity
        &&& self.slots.len() >= 1
    }

    pub open spec fn workers(self) -> nat {
        self.slots.len()
    }

    /// Offering a job: refused when the pool is closed or the queue is full,
    /// otherwise appended at the back.
    pub open spec fn push(self, job: RunJob) -> (PoolView, Result<(), AdmissionError>) {
        if self.closed {
            (self, Err(AdmissionError::QueueClosed))
        } else if self.pending.len() >= self.capacity {
            (self, Err(AdmissionError::QueueFull))
        } else {
            (PoolView { pending: self.pending.push(job), ..self }, Ok(()))
        }
    }

    /// Offering a job, with the refusal as the service reports it.
    pub open spec fn push_job(self, job: RunJob) -> (PoolView, ServiceResult<()>) {
        let (p, r) = self.push(job);
        match r {
            Ok(()) => (p, Ok(())),
            Err(e) => (p, Err(admission_error_to_service(e))),
        }
    }

    /// Offering several jobs one after another, with no worker taking any
    /// in between.
    pub open spec fn push_all(self, jobs: Seq<RunJob>) -> (PoolView, Seq<ServiceResult<()>>)
        decreases jobs.len(),
    {
        if jobs.len() == 0 {
            (self, Seq::empty())
        } else {
            let (p, r) = self.push_job(jobs[0]);
            let (q, rs) = p.push_all(jobs.drop_first());
            (q, seq![r] + rs)
        }
    }

    /// An idle worker takes the oldest waiting job, if there is one.
    pub open spec fn take(self, worker: int) -> (PoolView, Option<RunJob>) {
        if self.pending.len() == 0 {
            (self, None)
        } else {
            let job = self.pending[0];
            (
                PoolView {
                    pending: self.pending.drop_first(),
                    slots: self.slots.update(worker, Some(job)),
                    ..self
                },
                Some(job),
            )
        }
    }

    /// A worker is done with its job and becomes idle.
    pub open spec fn complete(self, worker: int) -> PoolView {
        PoolView { slots: self.slots.update(worker, None), ..self }
    }

    /// The number of workers executing a job.
    pub open spec fn executing(self) -> nat {
        self.slots.filter(|s: Option<RunJob>| s is Some).len()
    }
}

/// The record a worker writes once a job has executed.
pub open spec fn terminal_record(job: RunJob, result: RunJobResult) -> Run {
    Run {
        id: job.id,
        status: RunStatus::Finished,
        successful_responses_count: result.successful_responses,
        sum: result.value_sum,
    }
}

/// The admission queue and the workers that drain it.
///
/// Jobs are admitted without waiting: a job is queued if there is room and
/// refused otherwise. Each worker takes jobs in arrival order, one at a time,
/// so no more jobs execute at once than there are workers.
pub struct WorkerPool {
    pending: VecDeque<RunJob>,
    capacity: usize,
    slots: Vec<Option<RunJob>>,
    closed: bool,
}

impl View for WorkerPool {
    type V = PoolView;

    closed spec fn view(&self) -> PoolView {
        PoolView {
            pending: self.pending@,
            capacity: self.capacity as nat,
            slots: self.slots@,
            closed: self.closed,
        }
    }
}

impl WorkerPool {
    /// A pool with an empty queue and idle workers, sized by the settings.
    pub fn new(settings: &PollingSettings) -> (r: WorkerPool)
        ensures
            r@.wf(),
            r@.pending == Seq::<RunJob>::empty(),
            r@.capacity == effective_limit(settings.max_pending_runs),
            r@.workers() == effective_limit(settings.max_concurrent_runs),
            forall|i: int| 0 <= i < r@.workers() ==> r@.slots[i] is None,
            !r@.closed,
    {
        let workers = at_least_one(settings.max_concurrent_runs);
        let mut slots: Vec<Option<RunJob>> = Vec::new();
        while slots.len() < workers
            invariant
                slots.len() <= workers,
                forall|i: int| 0 <= i < slots.len() ==> slots@[i] is None,
            decreases workers - slots.len(),
        {
            slots.push(None);
        }
        WorkerPool {
            pending: VecDeque::new(),
            capacity: at_least_one(settings.max_pending_runs),
            slots,
            closed: false,
        }
    }

    /// Admits a job without waiting, or says why it cannot.
    pub fn try_push(&mut self, job: RunJob) -> (r: Result<(), AdmissionError>)
        requires
            old(self)@.wf(),
        ensures
            (final(self)@, r) == old(self)@.push(job),
            final(self)@.wf(),
    {
        if self.closed {
            Err(AdmissionError::QueueClosed)
        } else if self.pending.len() >= self.capacity {
            Err(AdmissionError::QueueFull)
        } else {
            self.pending.push_back(job);
            Ok(())
        }
    }

    /// Admits a job without waiting: `TooManyRequests` when the queue is
    /// full, `InternalServerError` when the pool is closed.
    pub fn try_push_job(&mut self, run_job: RunJob) -> (r: ServiceResult<()>)
        requires
            old(self)@.wf(),
        ensures
            (final(self)@, r) == old(self)@.push_job(run_job),
            final(self)@.wf(),
    {
        match self.try_push(run_job) {
            Ok(()) => Ok(()),
            Err(e) => Err(ServiceError::from(e)),
        }
    }

    /// Hands the oldest waiting job to an idle worker.
    pub fn take_job(&mut self, worker: usize) -> (r: Option<RunJob>)
        requires
            old(self)@.wf(),
            worker < old(self)@.workers(),
            old(self)@.slots[worker as int] is None,
        ensures
            (final(self)@, r) == old(self)@.take(worker as int),
            final(self)@.wf(),
    {
        match self.pending.pop_front() {
            None => None,
            Some(job) => {
                self.slots.set(worker, Some(job));
                Some(job)
            },
        }
    }

    /// Releases a worker from its job and gives the record to persist.
    pub fn complete_job(&mut self, worker: usize, result: &RunJobResult) -> (r: Run)
        requires
            old(self)@.wf(),
            worker < old(self)@.workers(),
            old(self)@.slots[worker as int] is Some,
            result.id == old(self)@.slots[worker as int]->Some_0.id,
        ensures
            final(self)@ == old(self)@.complete(worker as int),
            final(self)@.wf(),
            r == terminal_record(old(self)@.slots[worker as int]->Some_0, *result),
    {
        let job = self.slots[worker].unwrap();
        self.slots.set(worker, None);
        Run {
            id: job.id,
            status: RunStatus::Finished,
            successful_responses_count: result.successful_responses,
            sum: result.value_sum,
        }
    }

    /// Tears the pool down: from now on every job is refused.
    pub fn close(&mut self)
        requires
            old(self)@.wf(),
        ensures
            final(self)@ == (PoolView { closed: true, ..old(self)@ }),
            final(self)@.wf(),
    {
        self.closed = true;
    }

    pub fn worker_count(&self) -> (r: usize)
        ensures
            r == self@.workers(),
    {
        self.slots.len()
    }

    pub fn pending_len(&self) -> (r: usize)
        ensures
            r == self@.pending.len(),
    {
        self.pending.len()
    }

    pub fn is_closed(&self) -> (r: bool)
        ensures
            r == self@.closed,
    {
        self.closed
    }
}

} // verus!

verus! {

/// A burst of offers with no worker taking a job in between: the first
/// offers fill the free room of the queue and are admitted in order; every
/// later offer is refused with `TooManyRequests`. No admitted job is lost:
/// the queue afterwards holds the old jobs followed by the admitted ones.
pub proof fn lemma_burst_admission(p: PoolView, jobs: Seq<RunJob>)
    requires
        p.wf(),
        !p.closed,
    ensures
        ({
            let (q, rs) = p.push_all(jobs);
            let free = (p.capacity - p.pending.len()) as int;
            let admitted = if jobs.len() < free {
                jobs.len() as int
            } else {
                free
            };
            &&& rs.len() == jobs.len()
            &&& forall|i: int|
                0 <= i < jobs.len() ==> #[trigger] rs[i] == if i < free {
                    Ok::<(), ServiceError>(())
                } else {
                    Err::<(), ServiceError>(ServiceError::TooManyRequests)
                }
            &&& q.pending == p.pending + jobs.take(admitted)
            &&& q.slots == p.slots
            &&& q.capacity == p.capacity
            &&& !q.closed
            &&& q.wf()
        }),
    decreases jobs.len(),
{
    if jobs.len() > 0 {
        let (p1, r) = p.push_job(jobs[0]);
        let rest = jobs.drop_first();
        lemma_burst_admission(p1, rest);
        let (q, rs) = p1.push_all(rest);
        let free = (p.capacity - p.pending.len()) as int;
        if free > 0 {
            assert(p1.pending == p.pending.push(jobs[0]));
            let admitted1 = if rest.len() < free - 1 {
                rest.len() as int
            } else {
                free - 1
            };
            assert(jobs.take(admitted1 + 1) =~= seq![jobs[0]] + rest.take(admitted1));
            assert(q.pending =~= p.pending + jobs.take(admitted1 + 1));
        } else {
            assert(jobs.take(0) =~= Seq::<RunJob>::empty());
            assert(rest.take(0) =~= Seq::<RunJob>::empty());
            assert(q.pending =~= p.pending + jobs.take(0));
        }
        let all = seq![r] + rs;
        assert forall|i: int| 0 <= i < jobs.len() implies #[trigger] all[i] == if i < free {
            Ok::<(), ServiceError>(())
        } else {
            Err::<(), ServiceError>(ServiceError::TooManyRequests)
        } by {
            if i > 0 {
                assert(all[i] == rs[i - 1]);
            }
        }
    } else {
        assert(jobs.take(0) =~= Seq::<RunJob>::empty());
        assert(p.pending + jobs.take(0) =~= p.pending);
    }
}

/// Admitted but unfinished jobs never outnumber the queue's capacity plus
/// the workers; once they reach that number, every offer is refused with
/// `TooManyRequests` and leaves the pool as it was.
pub proof fn lemma_saturated_pool_refuses(p: PoolView, job: RunJob)
    requires
        p.wf(),
        !p.closed,
    ensures
        p.pending.len() + p.executing() <= p.capacity + p.workers(),
        p.pending.len() + p.executing() == p.capacity + p.workers() ==> p.push_job(job) == (
        p,
        Err::<(), ServiceError>(ServiceError::TooManyRequests),
        ),
{
    p.slots.lemma_filter_len(|s: Option<RunJob>| s is Some);
}

/// Jobs leave the queue in the order they arrived: the job a worker takes is
/// the oldest one admitted and not yet taken.
pub proof fn lemma_first_in_first_out(p: PoolView, job: RunJob, worker: int)
    requires
        p.wf(),
        !p.closed,
        p.pending.len() < p.capacity,
        0 <= worker < p.workers(),
    ensures
        ({
            let (q, r) = p.push(job);
            let (s, taken) = q.take(worker);
            &&& r is Ok
            &&& taken == Some(if p.pending.len() == 0 {
                job
            } else {
                p.pending[0]
            })
            &&& s.pending == (if p.pending.len() == 0 {
                Seq::<RunJob>::empty()
            } else {
                p.pending.drop_first().push(job)
            })
        }),
{
    let (q, r) = p.push(job);
    if p.pending.len() == 0 {
        assert(q.pending.drop_first() =~= Seq::<RunJob>::empty());
    } else {
        assert(q.pending.drop_first() =~= p.pending.drop_first().push(job));
    }
}

} // verus!

verus! {

/// A job that a worker takes leaves the queue and is held by that worker
/// alone: what the other workers hold does not change, and the rest of the
/// queue keeps its order.
pub proof fn lemma_job_goes_to_one_worker(p: PoolView, worker: int)
    requires
        p.wf(),
        0 <= worker < p.workers(),
        p.slots[worker] is None,
        p.pending.len() > 0,
    ensures
        ({
            let (q, taken) = p.take(worker);
            &&& taken == Some(p.pending[0])
            &&& q.slots[worker] == taken
            &&& forall|w: int| 0 <= w < p.workers() && w != worker ==> #[trigger] q.slots[w] == p.slots[w]
            &&& p.pending == seq![p.pending[0]] + q.pending
            &&& q.wf()
        }),
{
    let (q, taken) = p.take(worker);
    assert(p.pending =~= seq![p.pending[0]] + q.pending);
}

} // verus!
