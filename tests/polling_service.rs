use faulty_server_poller::dto::{
    FaultyServerResponse, NewRun, Run, RunJob, RunStatus, StartRunRequestDto, StartRunResponseDto,
};
use faulty_server_poller::errors::ServiceError;
use faulty_server_poller::executor::{FanOutAction, RunExecution};
use faulty_server_poller::polling_service::{
    admit_run, after_admission, after_save, run_job_for, PollingServiceImpl, StartRunStep,
};
use faulty_server_poller::run_store::{row_of, run_from_row, RunRow};
use faulty_server_poller::settings::PollingSettings;
use faulty_server_poller::worker_pool::WorkerPool;
use uuid::Uuid;

fn settings(max_concurrent_runs: usize, max_pending_runs: usize) -> PollingSettings {
    PollingSettings {
        polling_address: "127.0.0.1:0".into(),
        max_concurrent_runs,
        max_pending_runs,
        concurrent_requests_per_run: 3,
    }
}

/// A store holding rows in memory, keyed by run identifier.
struct Rows(Vec<(Uuid, RunRow)>);

impl Rows {
    fn save(&mut self, new_run: &NewRun) {
        self.0.push((new_run.id, row_of(&new_run.initial_record())));
    }

    fn update(&mut self, run: &Run) {
        let row = self.0.iter_mut().find(|(id, _)| *id == run.id).unwrap();
        row.1 = row_of(run);
    }

    fn get(&self, id: Uuid) -> Result<Run, ServiceError> {
        match self.0.iter().find(|(i, _)| *i == id) {
            Some((_, row)) => run_from_row(id, row),
            None => Err(ServiceError::InternalServerError),
        }
    }
}

/// Executes a job against an upstream answering `Success { value }` after
/// 10 ms, on a simulated clock.
fn execute(job: &RunJob, concurrent_requests_per_run: usize, value: u32) -> RunExecution {
    let mut exec = RunExecution::new(job, concurrent_requests_per_run);
    let response = FaultyServerResponse::Success { value };
    let mut now: u64 = 0;
    loop {
        loop {
            match exec.poll(now) {
                FanOutAction::Launch => {}
                FanOutAction::Wait => break,
                FanOutAction::Stop => return exec,
            }
        }
        now += 10;
        for _ in 0..exec.in_flight() {
            exec.on_complete(&response, now);
        }
    }
}

#[test]
fn start_run_correctly() {
    let id = Uuid::new_v4();
    let request = StartRunRequestDto { seconds: 15 };
    let mut pool = WorkerPool::new(&settings(1, 1));

    assert_eq!(run_job_for(id, &request), RunJob { id, duration_secs: request.seconds });
    let step = admit_run(&mut pool, id, &request);
    assert_eq!(step, StartRunStep::Save(NewRun { id, seconds: request.seconds }));
    assert_eq!(pool.take_job(0), Some(RunJob { id, duration_secs: 15 }));

    let actual_result = after_save(id, Ok(()));
    assert_eq!(Ok(StartRunResponseDto { id }), actual_result)
}

#[test]
fn refused_run_is_not_recorded() {
    let mut pool = WorkerPool::new(&settings(1, 1));
    let request = StartRunRequestDto { seconds: 10 };
    let first = admit_run(&mut pool, Uuid::from_u128(1), &request);
    assert!(matches!(first, StartRunStep::Save(_)));
    let second = admit_run(&mut pool, Uuid::from_u128(2), &request);
    assert_eq!(second, StartRunStep::Reply(Err(ServiceError::TooManyRequests)));
    assert_eq!(pool.pending_len(), 1);
}

#[test]
fn closed_queue_is_an_internal_error() {
    let step = after_admission(
        Uuid::from_u128(3),
        &StartRunRequestDto { seconds: 1 },
        Err(ServiceError::InternalServerError),
    );
    assert_eq!(step, StartRunStep::Reply(Err(ServiceError::InternalServerError)));
}

#[test]
fn failed_save_is_reported() {
    assert_eq!(
        after_save(Uuid::from_u128(4), Err(ServiceError::InternalServerError)),
        Err(ServiceError::InternalServerError)
    );
}

#[test]
fn service_keeps_its_parts() {
    let service = PollingServiceImpl::new(7u8, "runner");
    assert_eq!(*service.run_repo(), 7u8);
    assert_eq!(*service.job_runner(), "runner");
}

#[test]
fn started_run_reads_in_progress_then_finished() {
    let mut pool = WorkerPool::new(&settings(1, 1));
    let mut rows = Rows(Vec::new());
    let id = Uuid::from_u128(99);
    let request = StartRunRequestDto { seconds: 3 };

    match admit_run(&mut pool, id, &request) {
        StartRunStep::Save(new_run) => rows.save(&new_run),
        StartRunStep::Reply(r) => panic!("refused: {:?}", r),
    }
    let before = rows.get(id).unwrap();
    assert_eq!(before.status, RunStatus::InProgress);
    assert_eq!((before.successful_responses_count, before.sum), (0, 0));

    let job = pool.take_job(0).unwrap();
    let exec = execute(&job, 3, 50);
    let record = pool.complete_job(0, &exec.result());
    rows.update(&record);

    let after = rows.get(id).unwrap();
    assert_eq!(after.status, RunStatus::Finished);
    assert!(after.successful_responses_count > 0);
    assert_eq!(after.sum, 50 * after.successful_responses_count);
    assert_eq!(pool.take_job(0), None);
}
