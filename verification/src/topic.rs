//! Topic operations: request validation and the service that creates,
//! drops and lists the backing tables.

pub mod cmd;
pub mod svc;
