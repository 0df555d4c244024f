use vstd::prelude::*;

use crate::dto::{NewRun, RunId, RunJob, RunJobResult, RunStatus, StartRunRequestDto, StartRunResponseDto};
use crate::errors::ServiceResult;
use crate::worker_pool::{terminal_record, PoolView, WorkerPool};

verus! {

/// The public face of the engine: it starts runs and reads them back,
/// through a run store `R` and a job runner `J`.
pub struct PollingServiceImpl<R, J> {
    run_repo: R,
    job_runner: J,
}

/// What starting a run does once the job runner has answered.
#[derive(Debug, Clone, Copy, PartialEq)]
pub enum StartRunStep {
    /// The job was admitted: write this record, then reply.
    Save(NewRun),
    /// Nothing is written: reply with this at once.
    Reply(ServiceResult<StartRunResponseDto>),
}

impl<R, J> PollingServiceImpl<R, J> {
    pub closed spec fn spec_run_repo(&self) -> R {
        self.run_repo
    }

    pub closed spec fn spec_job_runner(&self) -> J {
        self.job_runner
    }

    pub fn new(run_repo: R, job_runner: J) -> (r: Self)
        ensures
            r.spec_run_repo() == run_repo,
            r.spec_job_runner() == job_runner,
    {
        PollingServiceImpl { run_repo, job_runner }
    }

    pub fn run_repo(&self) -> (r: &R)
        ensures
            *r == self.spec_run_repo(),
    {
        &self.run_repo
    }

    pub fn job_runner(&self) -> (r: &J)
        ensures
            *r == self.spec_job_runner(),
    {
        &self.job_runner
    }
}

/// The job that executes a run requested with these parameters.
pub open spec fn spec_run_job(id: RunId, request: StartRunRequestDto) -> RunJob {
    RunJob { id, duration_secs: request.seconds }
}

/// The step after admission: a refused run is answered with the refusal and
/// leaves no record behind; an admitted one is recorded next.
pub open spec fn spec_after_admission(
    id: RunId,
    request: StartRunRequestDto,
    admission: ServiceResult<()>,
) -> StartRunStep {
    match admission {
        Ok(()) => StartRunStep::Save(NewRun { id, seconds: request.seconds }),
        Err(e) => StartRunStep::Reply(Err(e)),
    }
}

/// The reply once the record of an admitted run has been written or not.
pub open spec fn spec_after_save(id: RunId, saved: ServiceResult<()>) -> ServiceResult<
    StartRunResponseDto,
> {
    match saved {
        Ok(()) => Ok(StartRunResponseDto { id }),
        Err(e) => Err(e),
    }
}

pub fn run_job_for(id: RunId, request: &StartRunRequestDto) -> (r: RunJob)
    ensures
        r == spec_run_job(id, *request),
{
    RunJob { id, duration_secs: request.seconds }
}

pub fn after_admission(id: RunId, request: &StartRunRequestDto, admission: ServiceResult<()>) -> (r:
    StartRunStep)
    ensures
        r == spec_after_admission(id, *request, admission),
{
    match admission {
        Ok(()) => StartRunStep::Save(NewRun { id, seconds: request.seconds }),
        Err(e) => StartRunStep::Reply(Err(e)),
    }
}

pub fn after_save(id: RunId, saved: ServiceResult<()>) -> (r: ServiceResult<StartRunResponseDto>)
    ensures
        r == spec_after_save(id, saved),
{
    match saved {
        Ok(()) => Ok(StartRunResponseDto { id }),
        Err(e) => Err(e),
    }
}

/// Starts a run with a fresh identifier `id` up to the write of its record:
/// offers its job to the pool, and says what to do next.
pub fn admit_run(pool: &mut WorkerPool, id: RunId, request: &StartRunRequestDto) -> (r:
    StartRunStep)
    requires
        old(pool)@.wf(),
    ensures
        final(pool)@.wf(),
        final(pool)@ == old(pool)@.push_job(spec_run_job(id, *request)).0,
        r == spec_after_admission(id, *request, old(pool)@.push_job(spec_run_job(id, *request)).1),
{
    let job = run_job_for(id, request);
    let admission = pool.try_push_job(job);
    after_admission(id, request, admission)
}

} // verus!

verus! {

/// The life of a run as this engine records it. Starting it writes a
/// record that reads as in progress, and queues its job behind those
/// already waiting. When the worker that took the job completes it, the
/// single terminal record for that run reads as finished. The worker then
/// holds no job, so that run gets no second terminal record from it.
pub proof fn lemma_run_lifecycle(
    p: PoolView,
    id: RunId,
    request: StartRunRequestDto,
    worker: int,
    result: RunJobResult,
)
    requires
        p.wf(),
        0 <= worker < p.workers(),
        p.slots[worker] == Some(spec_run_job(id, request)),
        result.id == id,
    ensures
        ({
            let (q, admission) = p.push_job(spec_run_job(id, request));
            admission is Ok ==> {
                &&& spec_after_admission(id, request, admission) == StartRunStep::Save(
                    NewRun { id, seconds: request.seconds },
                )
                &&& (NewRun { id, seconds: request.seconds }).spec_initial_record().status
                    == RunStatus::InProgress
                &&& q.pending.last() == spec_run_job(id, request)
            }
        }),
        terminal_record(spec_run_job(id, request), result).status == RunStatus::Finished,
        terminal_record(spec_run_job(id, request), result).id == id,
        p.complete(worker).slots[worker] is None,
{
}

} // verus!
