//! Errors reported at the boundary where a request is decoded.

use vstd::prelude::*;

verus! {

/// A parameter could not be parsed: the parameter's name and the reason.
#[derive(Debug, PartialEq, Eq)]
pub struct ParseParamError {
    pub name: &'static str,
    pub reason: String,
}

impl ParseParamError {
    /// The name and the reason, as characters.
    pub open spec fn view(&self) -> (Seq<char>, Seq<char>) {
        (self.name@, self.reason@)
    }
}

} // verus!
