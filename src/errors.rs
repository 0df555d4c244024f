use vstd::prelude::*;

verus! {

/// The errors a caller of the polling service can see.
#[derive(Debug, Clone, Copy, PartialEq, Eq, Structural)]
pub enum ServiceError {
    InternalServerError,
    TooManyRequests,
}

pub type ServiceResult<V> = Result<V, ServiceError>;

/// Why the admission queue refused a job.
#[derive(Debug, Clone, Copy, PartialEq, Eq, Structural)]
pub enum AdmissionError {
    /// The queue holds as many jobs as it may.
    QueueFull,
    /// The worker pool has been torn down.
    QueueClosed,
}

impl ServiceError {
    pub open spec fn spec_status_code(self) -> u16 {
        match self {
            ServiceError::InternalServerError => 500,
            ServiceError::TooManyRequests => 429,
        }
    }

    pub open spec fn spec_message(self) -> Seq<char> {
        match self {
            ServiceError::InternalServerError => "Internal server error, please try again later"@,
            ServiceError::TooManyRequests => "Too many requests, please try again later"@,
        }
    }

    /// The HTTP status under which this error is reported.
    pub fn status_code(&self) -> (r: u16)
        ensures
            r == self.spec_status_code(),
    {
        match self {
            ServiceError::InternalServerError => 500,
            ServiceError::TooManyRequests => 429,
        }
    }

    /// The text sent to the client with this error.
    pub fn message(&self) -> (r: &'static str)
        ensures
            r@ == self.spec_message(),
    {
        match self {
            ServiceError::InternalServerError => {
                let s = "Internal server error, please try again later";
                proof {
                    reveal_strlit("Internal server error, please try again later");
                }
                s
            },
            ServiceError::TooManyRequests => {
                let s = "Too many requests, please try again later";
                proof {
                    reveal_strlit("Too many requests, please try again later");
                }
                s
            },
        }
    }
}

/// A full queue asks the client to come back later; a closed one is an
/// internal fault.
pub open spec fn admission_error_to_service(e: AdmissionError) -> ServiceError {
    match e {
        AdmissionError::QueueFull => ServiceError::TooManyRequests,
        AdmissionError::QueueClosed => ServiceError::InternalServerError,
    }
}

impl From<AdmissionError> for ServiceError {
    fn from(e: AdmissionError) -> (r: ServiceError)
        ensures
            r == admission_error_to_service(e),
    {
        match e {
            AdmissionError::QueueFull => ServiceError::TooManyRequests,
            AdmissionError::QueueClosed => ServiceError::InternalServerError,
        }
    }
}

impl vstd::std_specs::convert::FromSpecImpl<AdmissionError> for ServiceError {
    open spec fn obeys_from_spec() -> bool {
        true
    }

    open spec fn from_spec(e: AdmissionError) -> ServiceError {
        admission_error_to_service(e)
    }
}

} // verus!
