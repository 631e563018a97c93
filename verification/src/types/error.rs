//! Why a conversion failed.

use vstd::prelude::*;
use vstd::string::*;
use crate::value::{Value, ValueView};

verus! {

/// A failed conversion.
#[derive(Debug, PartialEq, Eq)]
pub enum ParseError {
    /// A value of another shape was given: the value.
    ExpectedType(Value),
    /// A required input was absent.
    ExpectedInput,
    /// The input was refused for the stated reason.
    Custom(String),
    /// A component of a composite value failed; the component's error is kept.
    Propagated(Box<ParseError>),
}

/// The mathematical content of a [`ParseError`].
pub ghost enum ParseErrorView {
    ExpectedType(ValueView),
    ExpectedInput,
    Custom(Seq<char>),
    Propagated(Box<ParseErrorView>),
}

impl ParseErrorView {
    /// The human-readable reason. A propagated error reads as its cause.
    pub open spec fn message(self) -> Seq<char>
        decreases self,
    {
        match self {
            ParseErrorView::ExpectedType(found) => "unexpected input of type "@ + found.kind(),
            ParseErrorView::ExpectedInput => "expected an input value"@,
            ParseErrorView::Custom(reason) => reason,
            ParseErrorView::Propagated(cause) => cause.message(),
        }
    }
}

impl View for ParseError {
    type V = ParseErrorView;

    open spec fn view(&self) -> ParseErrorView
        decreases self,
    {
        match self {
            ParseError::ExpectedType(found) => ParseErrorView::ExpectedType(found@),
            ParseError::ExpectedInput => ParseErrorView::ExpectedInput,
            ParseError::Custom(reason) => ParseErrorView::Custom(reason@),
            ParseError::Propagated(cause) => ParseErrorView::Propagated(Box::new((**cause).view())),
        }
    }
}

impl ParseError {
    /// The input `found` had another shape than the type reads.
    pub fn expected_type(found: Value) -> (e: ParseError)
        ensures
            e@ == ParseErrorView::ExpectedType(found@),
    {
        ParseError::ExpectedType(found)
    }

    /// A required input was absent.
    pub fn expected_input() -> (e: ParseError)
        ensures
            e@ == ParseErrorView::ExpectedInput,
    {
        ParseError::ExpectedInput
    }

    /// The input was refused for `reason`.
    pub fn custom(reason: &str) -> (e: ParseError)
        ensures
            e@ == ParseErrorView::Custom(reason@),
    {
        ParseError::Custom(String::from_str(reason))
    }

    /// Marks this error as the failure of a component.
    pub fn propagate(self) -> (e: ParseError)
        ensures
            e@ == ParseErrorView::Propagated(Box::new(self@)),
    {
        ParseError::Propagated(Box::new(self))
    }

    /// The human-readable reason.
    pub fn into_message(self) -> (reason: String)
        ensures
            reason@ == self@.message(),
        decreases self,
    {
        match self {
            ParseError::ExpectedType(found) => String::from_str("unexpected input of type ").concat(
                found.kind(),
            ),
            ParseError::ExpectedInput => String::from_str("expected an input value"),
            ParseError::Custom(reason) => reason,
            ParseError::Propagated(cause) => (*cause).into_message(),
        }
    }
}

} // verus!
