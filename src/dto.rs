use vstd::prelude::*;

use crate::errors::ServiceError;

verus! {

/// Declares `uuid::Uuid` to Verus. Run identifiers are carried through the
/// engine and compared only by the caller; nothing here looks inside one.
#[verifier::external_type_specification]
#[verifier::external_body]
pub struct ExUuid(uuid::Uuid);

/// A run's identifier, unique for the life of the store.
pub type RunId = uuid::Uuid;

/// The durable record of an accepted run, written before it executes.
#[derive(Debug, Clone, Copy, PartialEq)]
pub struct NewRun {
    pub id: RunId,
    pub seconds: u64,
}

/// Where a run stands: it moves from `InProgress` to `Finished` once.
#[derive(Debug, Clone, Copy, PartialEq, Eq, Structural)]
pub enum RunStatus {
    InProgress,
    Finished,
}

/// The payload of a request to start a run.
#[derive(Debug, Clone, Copy, PartialEq, Eq, Structural)]
pub struct StartRunRequestDto {
    pub seconds: u64,
}

/// The answer to an accepted start request.
#[derive(Debug, Clone, Copy, PartialEq)]
pub struct StartRunResponseDto {
    pub id: RunId,
}

/// The queryable state of a run.
#[derive(Debug, Clone, Copy, PartialEq)]
pub struct Run {
    pub id: RunId,
    pub status: RunStatus,
    pub successful_responses_count: u64,
    pub sum: u64,
}

/// What one upstream call came back with.
#[derive(Debug, Clone, PartialEq)]
pub enum FaultyServerResponse {
    Success { value: u32 },
    Failure { error: String },
}

/// The unit of work handed to the worker pool.
#[derive(Debug, Clone, Copy, PartialEq)]
pub struct RunJob {
    pub id: RunId,
    pub duration_secs: u64,
}

/// The tally of one executed job.
#[derive(Debug, Clone, Copy, PartialEq)]
pub struct RunJobResult {
    pub id: RunId,
    pub successful_responses: u64,
    pub value_sum: u64,
}

impl NewRun {
    /// The state of a run as first recorded: in progress, nothing tallied.
    pub open spec fn spec_initial_record(self) -> Run {
        Run {
            id: self.id,
            status: RunStatus::InProgress,
            successful_responses_count: 0,
            sum: 0,
        }
    }

    pub fn initial_record(&self) -> (r: Run)
        ensures
            r == self.spec_initial_record(),
    {
        Run { id: self.id, status: RunStatus::InProgress, successful_responses_count: 0, sum: 0 }
    }
}

impl RunStatus {
    /// The number under which the store keeps a status.
    pub open spec fn spec_code(self) -> i16 {
        match self {
            RunStatus::InProgress => 0,
            RunStatus::Finished => 1,
        }
    }

    pub fn code(self) -> (r: i16)
        ensures
            r == self.spec_code(),
    {
        match self {
            RunStatus::InProgress => 0,
            RunStatus::Finished => 1,
        }
    }

    /// The status a stored number stands for, if any.
    pub open spec fn spec_from_code(value: i16) -> Result<RunStatus, ServiceError> {
        if value == 0 {
            Ok(RunStatus::InProgress)
        } else if value == 1 {
            Ok(RunStatus::Finished)
        } else {
            Err(ServiceError::InternalServerError)
        }
    }

    /// Reads a stored status number back; any other number is a fault of
    /// the store.
    pub fn from_code(value: i16) -> (r: Result<RunStatus, ServiceError>)
        ensures
            r == RunStatus::spec_from_code(value),
    {
        match value {
            0 => Ok(RunStatus::InProgress),
            1 => Ok(RunStatus::Finished),
            _ => Err(ServiceError::InternalServerError),
        }
    }
}

impl TryFrom<i16> for RunStatus {
    type Error = ServiceError;

    fn try_from(value: i16) -> (r: Result<RunStatus, ServiceError>) {
        RunStatus::from_code(value)
    }
}

impl vstd::std_specs::convert::TryFromSpecImpl<i16> for RunStatus {
    open spec fn obeys_try_from_spec() -> bool {
        true
    }

    open spec fn try_from_spec(value: i16) -> Result<RunStatus, ServiceError> {
        RunStatus::spec_from_code(value)
    }
}

impl FaultyServerResponse {
    /// The value a successful call contributes, if it was successful.
    pub open spec fn spec_value(self) -> Option<u32> {
        match self {
            FaultyServerResponse::Success { value } => Some(value),
            FaultyServerResponse::Failure { .. } => None,
        }
    }

    pub fn value(&self) -> (r: Option<u32>)
        ensures
            r == self.spec_value(),
    {
        match self {
            FaultyServerResponse::Success { value } => Some(*value),
            FaultyServerResponse::Failure { .. } => None,
        }
    }
}

} // verus!
