//! Any JSON number as a bindable type.

use vstd::prelude::*;
use vstd::string::*;
use crate::registry::{Entries, MetaSchema, MetaSchemaRef, MetaSchemaRefView, MetaSchemaView, Registry};
use crate::types::error::{ParseError, ParseErrorView};
use crate::types::{reads_back, ParseFromJSON, ToJSON, Type};
use crate::value::{Number, Value, ValueView};

verus! {

impl DeepView for Number {
    type V = Number;

    open spec fn deep_view(&self) -> Number {
        *self
    }
}

impl Type for Number {
    type RawValueType = Number;

    type RawElementValueType = Number;

    open spec fn spec_name() -> Seq<char> {
        "number"@
    }

    open spec fn spec_is_required() -> bool {
        true
    }

    open spec fn spec_schema_ref() -> MetaSchemaRefView {
        MetaSchemaRefView::Inline(Box::new(MetaSchemaView::of_type("number"@)))
    }

    open spec fn spec_register(entries: Entries) -> Entries {
        entries
    }

    open spec fn spec_as_raw_value(&self) -> Option<Number> {
        Some(*self)
    }

    open spec fn spec_raw_elements(&self) -> Seq<Number> {
        seq![*self]
    }

    open spec fn spec_is_empty(&self) -> bool {
        false
    }

    proof fn lemma_register_keeps_names_distinct(entries: Entries) {
    }

    proof fn lemma_register_resolves(entries: Entries) {
    }

    proof fn lemma_register_idempotent(entries: Entries) {
    }

    fn name() -> (name: String) {
        String::from_str("number")
    }

    fn is_required() -> (required: bool) {
        true
    }

    fn schema_ref() -> (schema: MetaSchemaRef) {
        MetaSchemaRef::Inline(Box::new(MetaSchema::new("number")))
    }

    fn register(registry: &mut Registry) {
    }

    fn as_raw_value(&self) -> (raw: Option<&Number>) {
        Some(self)
    }

    fn raw_element_iter(&self) -> (elements: Vec<&Number>) {
        let mut elements: Vec<&Number> = Vec::new();
        elements.push(self);
        elements
    }

    fn is_empty(&self) -> (empty: bool) {
        false
    }
}

impl ParseFromJSON for Number {
    open spec fn spec_parse_from_json(value: ValueView) -> Result<Number, ParseErrorView> {
        match value {
            ValueView::Number(number) => Ok(number),
            _ => Err(ParseErrorView::ExpectedType(value)),
        }
    }

    fn parse_from_json(value: Option<Value>) -> (parsed: Result<Number, ParseError>) {
        match Value::or_null(value) {
            Value::Number(number) => Ok(number),
            other => Err(ParseError::expected_type(other)),
        }
    }
}

impl ToJSON for Number {
    open spec fn spec_to_json(content: Number) -> Option<ValueView> {
        Some(ValueView::Number(content))
    }

    fn to_json(&self) -> (json: Option<Value>) {
        Some(Value::Number(*self))
    }
}

/// Every value that reads as a number is written again as itself.
pub proof fn lemma_number_reads_back(value: ValueView)
    ensures
        reads_back::<Number>(value),
{
}

} // verus!
