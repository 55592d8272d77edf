//! The independent count-validation path: request validation and the
//! service that answers exact counts.

pub mod cmd;
pub mod svc;
