//! Verified core of a queue/topic service backed by an append-only table per
//! topic: the topic-id/table-name codec, request validation, the read/write
//! gate, the long-poll retry protocol, bounded key enumeration, and the
//! error-classification contract over a pooled backend connection.

pub mod count;
pub mod err;
pub mod queue;
pub mod store;
pub mod topic;
pub mod topic2table;
pub mod uuid;
