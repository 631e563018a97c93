//! Parameters of a request.

pub mod query;
