//! Typed schema and value binding: every bindable type describes its schema,
//! converts to and from a JSON-like value, and parses itself from textual
//! parameters and multipart fields.

pub mod base;
pub mod error;
pub mod param;
pub mod registry;
pub mod text;
pub mod types;
pub mod value;
