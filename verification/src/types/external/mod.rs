//! Bindable types whose values come from other libraries.

pub mod array2;
pub mod timestamp;
