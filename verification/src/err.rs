//! The uniform error-classification contract: every failure carries one
//! machine-readable kind, assigned once at the backend boundary and never
//! reclassified upstream.

use vstd::prelude::*;

verus! {

/// Machine-readable classification of a failure.
#[derive(Clone, Copy, PartialEq, Eq, Structural, Debug)]
pub enum ErrorKind {
    /// A malformed identifier or key in a request.
    InvalidArgument,
    /// No matching record; also the designated retry signal of the long poll.
    NotFound,
    /// A pool timeout or a dead connection.
    Unavailable,
    /// The pool is permanently closed, or a write reached a read-only queue.
    FailedPrecondition,
    /// Any other backend failure, an undecodable table name during listing,
    /// or a lost actor reply.
    Internal,
    /// A permanently unsupported operation.
    Unimplemented,
    /// The long poll ran out of time.
    DeadlineExceeded,
    /// The consumer of a stream went away while an item was being handed over.
    Cancelled,
}

/// How an attempt to take a connection handle from the pool failed.
#[derive(Clone, Copy, PartialEq, Eq, Structural, Debug)]
pub enum PoolFailure {
    /// The bounded wait for a free connection ran out.
    Timeout,
    /// The pool is permanently closed.
    Closed,
    /// Anything else the pool reported.
    Other,
}

/// How a query or statement on an acquired connection failed.
#[derive(Clone, Copy, PartialEq, Eq, Structural, Debug)]
pub enum BackendFailure {
    /// The connection turned out to be dead.
    ConnectionClosed,
    /// Anything else the backend reported.
    Other,
}

/// The kind assigned to a connection-acquisition failure.
pub open spec fn spec_classify_pool_failure(f: PoolFailure) -> ErrorKind {
    match f {
        PoolFailure::Timeout => ErrorKind::Unavailable,
        PoolFailure::Closed => ErrorKind::FailedPrecondition,
        PoolFailure::Other => ErrorKind::Internal,
    }
}

/// Classifies a connection-acquisition failure: pool timeout is
/// `Unavailable`, a permanently closed pool is `FailedPrecondition`,
/// everything else is `Internal`.
pub fn classify_pool_failure(f: PoolFailure) -> (k: ErrorKind)
    ensures
        k == spec_classify_pool_failure(f),
{
    match f {
        PoolFailure::Timeout => ErrorKind::Unavailable,
        PoolFailure::Closed => ErrorKind::FailedPrecondition,
        PoolFailure::Other => ErrorKind::Internal,
    }
}

/// The kind assigned to a failure within a call on a live connection.
pub open spec fn spec_classify_backend_failure(f: BackendFailure) -> ErrorKind {
    match f {
        BackendFailure::ConnectionClosed => ErrorKind::Unavailable,
        BackendFailure::Other => ErrorKind::Internal,
    }
}

/// Classifies a failure of a query or statement: a dead-connection signal is
/// `Unavailable`, everything else is `Internal`.
pub fn classify_backend_failure(f: BackendFailure) -> (k: ErrorKind)
    ensures
        k == spec_classify_backend_failure(f),
{
    match f {
        BackendFailure::ConnectionClosed => ErrorKind::Unavailable,
        BackendFailure::Other => ErrorKind::Internal,
    }
}

} // verus!
