use vstd::prelude::*;

use crate::dto::{Run, RunId, RunStatus};
use crate::errors::{ServiceError, ServiceResult};

verus! {

/// A run as the store's table holds it: the status by its number, and the
/// tallies in signed 64-bit columns, bit for bit.
#[derive(Debug, Clone, Copy, PartialEq, Eq, Structural)]
pub struct RunRow {
    pub status_id: i16,
    pub run_successful_responses: i64,
    pub run_value_sum: i64,
}

pub open spec fn spec_row_of(run: Run) -> RunRow {
    RunRow {
        status_id: run.status.spec_code(),
        run_successful_responses: run.successful_responses_count as i64,
        run_value_sum: run.sum as i64,
    }
}

/// The run a row stands for; a row with an unknown status number is a
/// fault of the store.
pub open spec fn spec_run_from_row(id: RunId, row: RunRow) -> ServiceResult<Run> {
    match RunStatus::spec_from_code(row.status_id) {
        Ok(status) => Ok(
            Run {
                id,
                status,
                successful_responses_count: row.run_successful_responses as u64,
                sum: row.run_value_sum as u64,
            },
        ),
        Err(e) => Err(e),
    }
}

/// The row that records a run.
pub fn row_of(run: &Run) -> (r: RunRow)
    ensures
        r == spec_row_of(*run),
{
    RunRow {
        status_id: run.status.code(),
        run_successful_responses: run.successful_responses_count as i64,
        run_value_sum: run.sum as i64,
    }
}

/// Reads the run with identifier `id` back from its row.
pub fn run_from_row(id: RunId, row: &RunRow) -> (r: ServiceResult<Run>)
    ensures
        r == spec_run_from_row(id, *row),
{
    match RunStatus::from_code(row.status_id) {
        Ok(status) => Ok(
            Run {
                id,
                status,
                successful_responses_count: row.run_successful_responses as u64,
                sum: row.run_value_sum as u64,
            },
        ),
        Err(e) => Err(e),
    }
}

/// A terminal write must change exactly one record; any other count of
/// changed rows means the run was not recorded.
pub fn check_rows_updated(rows_affected: u64) -> (r: ServiceResult<()>)
    ensures
        rows_affected == 1 ==> r == Ok::<(), ServiceError>(()),
        rows_affected != 1 ==> r == Err::<(), ServiceError>(ServiceError::InternalServerError),
{
    if rows_affected == 1 {
        Ok(())
    } else {
        Err(ServiceError::InternalServerError)
    }
}

/// Writing a run to its row and reading the row back gives the same run.
pub proof fn lemma_row_round_trip(run: Run)
    ensures
        spec_run_from_row(run.id, spec_row_of(run)) == Ok::<Run, ServiceError>(run),
{
    let c = run.successful_responses_count;
    let s = run.sum;
    assert(((c as i64) as u64) == c) by (bit_vector);
    assert(((s as i64) as u64) == s) by (bit_vector);
}

} // verus!
