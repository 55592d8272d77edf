//! Queue operations against one topic: request validation, the read/write
//! gate, the long-poll protocol, and the service itself.

pub mod cmd;
pub mod rw;
pub mod st;
pub mod svc;
pub mod wait;
