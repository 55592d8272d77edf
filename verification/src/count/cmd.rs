//! Validated count requests: a missing identifier is rejected as
//! `InvalidArgument` before any work is done.

use vstd::prelude::*;

use crate::err::ErrorKind;
use crate::uuid::Uuid;

verus! {

/// A request for the exact record count of one topic.
pub struct ExactReq {
    request_id: Uuid,
    topic_id: Uuid,
}

impl ExactReq {
    pub closed spec fn spec_request_id(&self) -> Uuid {
        self.request_id
    }

    pub closed spec fn spec_topic_id(&self) -> Uuid {
        self.topic_id
    }

    /// Accepts the request exactly when both identifiers are present.
    pub fn try_from_parts(request_id: Option<Uuid>, topic_id: Option<Uuid>) -> (r: Result<
        Self,
        ErrorKind,
    >)
        ensures
            match r {
                Ok(q) => request_id == Some(q.spec_request_id()) && topic_id == Some(
                    q.spec_topic_id(),
                ),
                Err(k) => k == ErrorKind::InvalidArgument && (request_id is None
                    || topic_id is None),
            },
    {
        match (request_id, topic_id) {
            (Some(request_id), Some(topic_id)) => Ok(Self { request_id, topic_id }),
            _ => Err(ErrorKind::InvalidArgument),
        }
    }

    pub fn as_request(&self) -> (r: Uuid)
        ensures
            r == self.spec_request_id(),
    {
        self.request_id
    }

    pub fn as_topic(&self) -> (r: Uuid)
        ensures
            r == self.spec_topic_id(),
    {
        self.topic_id
    }
}

/// A request for a fast, estimated record count of one topic.
pub struct FastReq {
    request_id: Uuid,
    topic_id: Uuid,
}

impl FastReq {
    pub closed spec fn spec_request_id(&self) -> Uuid {
        self.request_id
    }

    pub closed spec fn spec_topic_id(&self) -> Uuid {
        self.topic_id
    }

    /// Accepts the request exactly when both identifiers are present.
    pub fn try_from_parts(request_id: Option<Uuid>, topic_id: Option<Uuid>) -> (r: Result<
        Self,
        ErrorKind,
    >)
        ensures
            match r {
                Ok(q) => request_id == Some(q.spec_request_id()) && topic_id == Some(
                    q.spec_topic_id(),
                ),
                Err(k) => k == ErrorKind::InvalidArgument && (request_id is None
                    || topic_id is None),
            },
    {
        match (request_id, topic_id) {
            (Some(request_id), Some(topic_id)) => Ok(Self { request_id, topic_id }),
            _ => Err(ErrorKind::InvalidArgument),
        }
    }

    pub fn as_request(&self) -> (r: Uuid)
        ensures
            r == self.spec_request_id(),
    {
        self.request_id
    }

    pub fn as_topic(&self) -> (r: Uuid)
        ensures
            r == self.spec_topic_id(),
    {
        self.topic_id
    }
}

} // verus!
