use faulty_server_poller::errors::{AdmissionError, ServiceError};
use faulty_server_poller::settings::at_least_one;

#[test]
fn errors_map_to_statuses_and_messages() {
    assert_eq!(ServiceError::InternalServerError.status_code(), 500);
    assert_eq!(ServiceError::TooManyRequests.status_code(), 429);
    assert_eq!(
        ServiceError::InternalServerError.message(),
        "Internal server error, please try again later"
    );
    assert_eq!(
        ServiceError::TooManyRequests.message(),
        "Too many requests, please try again later"
    );
}

#[test]
fn admission_errors_convert() {
    assert_eq!(ServiceError::from(AdmissionError::QueueFull), ServiceError::TooManyRequests);
    assert_eq!(ServiceError::from(AdmissionError::QueueClosed), ServiceError::InternalServerError);
}

#[test]
fn limits_are_at_least_one() {
    assert_eq!(at_least_one(0), 1);
    assert_eq!(at_least_one(1), 1);
    assert_eq!(at_least_one(usize::MAX), usize::MAX);
}
