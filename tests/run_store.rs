use faulty_server_poller::dto::{Run, RunStatus};
use faulty_server_poller::errors::ServiceError;
use faulty_server_poller::run_store::{check_rows_updated, row_of, run_from_row, RunRow};
use uuid::Uuid;

#[test]
fn row_round_trip_keeps_the_run() {
    let run = Run {
        id: Uuid::parse_str("cdc97318-ffb2-4350-b8d9-446cdd773a08").unwrap(),
        status: RunStatus::Finished,
        successful_responses_count: 10,
        sum: 300,
    };
    let row = row_of(&run);
    assert_eq!(
        row,
        RunRow { status_id: 1, run_successful_responses: 10, run_value_sum: 300 }
    );
    assert_eq!(run_from_row(run.id, &row), Ok(run));
}

#[test]
fn row_round_trip_keeps_the_widest_tallies() {
    let run = Run {
        id: Uuid::from_u128(5),
        status: RunStatus::InProgress,
        successful_responses_count: u64::MAX,
        sum: 1 << 63,
    };
    let row = row_of(&run);
    assert_eq!(row.status_id, 0);
    assert_eq!(row.run_successful_responses, -1);
    assert_eq!(row.run_value_sum, i64::MIN);
    assert_eq!(run_from_row(run.id, &row), Ok(run));
}

#[test]
fn unknown_status_number_is_an_internal_error() {
    let row = RunRow { status_id: 2, run_successful_responses: 0, run_value_sum: 0 };
    assert_eq!(run_from_row(Uuid::from_u128(1), &row), Err(ServiceError::InternalServerError));
    assert_eq!(RunStatus::from_code(-1), Err(ServiceError::InternalServerError));
    assert_eq!(RunStatus::from_code(0), Ok(RunStatus::InProgress));
    assert_eq!(RunStatus::from_code(1), Ok(RunStatus::Finished));
    assert_eq!(RunStatus::Finished.code(), 1);
    assert_eq!(RunStatus::InProgress.code(), 0);
}

#[test]
fn terminal_write_must_change_one_row() {
    assert_eq!(check_rows_updated(1), Ok(()));
    assert_eq!(check_rows_updated(0), Err(ServiceError::InternalServerError));
    assert_eq!(check_rows_updated(2), Err(ServiceError::InternalServerError));
}

#[test]
fn status_numbers_convert_through_try_from() {
    assert_eq!(RunStatus::try_from(0i16), Ok(RunStatus::InProgress));
    assert_eq!(RunStatus::try_from(1i16), Ok(RunStatus::Finished));
    assert_eq!(RunStatus::try_from(7i16), Err(ServiceError::InternalServerError));
}
