//! The error-classification contract at the backend boundary.

use db2q::err::{
    classify_backend_failure, classify_pool_failure, BackendFailure, ErrorKind, PoolFailure,
};

#[test]
fn pool_failures_classify_once() {
    assert_eq!(
        classify_pool_failure(PoolFailure::Timeout),
        ErrorKind::Unavailable
    );
    assert_eq!(
        classify_pool_failure(PoolFailure::Closed),
        ErrorKind::FailedPrecondition
    );
    assert_eq!(classify_pool_failure(PoolFailure::Other), ErrorKind::Internal);
}

#[test]
fn backend_failures_classify_once() {
    assert_eq!(
        classify_backend_failure(BackendFailure::ConnectionClosed),
        ErrorKind::Unavailable
    );
    assert_eq!(
        classify_backend_failure(BackendFailure::Other),
        ErrorKind::Internal
    );
}
