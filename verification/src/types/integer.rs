//! Integers as bindable types.

use vstd::prelude::*;
use vstd::string::*;
use crate::registry::{Entries, MetaSchema, MetaSchemaRef, MetaSchemaRefView, MetaSchemaView, Registry};
use crate::types::error::{ParseError, ParseErrorView};
use crate::types::{reads_back, ParseFromJSON, ToJSON, Type};
use crate::value::{Number, Value, ValueView};

verus! {

impl Type for i32 {
    type RawValueType = i32;

    type RawElementValueType = i32;

    open spec fn spec_name() -> Seq<char> {
        "integer_int32"@
    }

    open spec fn spec_is_required() -> bool {
        true
    }

    open spec fn spec_schema_ref() -> MetaSchemaRefView {
        MetaSchemaRefView::Inline(
            Box::new(MetaSchemaView::of_type_with_format("integer"@, "int32"@)),
        )
    }

    open spec fn spec_register(entries: Entries) -> Entries {
        entries
    }

    open spec fn spec_as_raw_value(&self) -> Option<i32> {
        Some(*self)
    }

    open spec fn spec_raw_elements(&self) -> Seq<i32> {
        seq![*self]
    }

    open spec fn spec_is_empty(&self) -> bool {
        false
    }

    proof fn lemma_register_keeps_names_distinct(entries: Entries) {
    }

    proof fn lemma_register_resolves(entries: Entries) {
    }

    proof fn lemma_register_idempotent(entries: Entries) {
    }

    fn name() -> (name: String) {
        String::from_str("integer_int32")
    }

    fn is_required() -> (required: bool) {
        true
    }

    fn schema_ref() -> (schema: MetaSchemaRef) {
        MetaSchemaRef::Inline(Box::new(MetaSchema::new_with_format("integer", "int32")))
    }

    fn register(registry: &mut Registry) {
    }

    fn as_raw_value(&self) -> (raw: Option<&i32>) {
        Some(self)
    }

    fn raw_element_iter(&self) -> (elements: Vec<&i32>) {
        let mut elements: Vec<&i32> = Vec::new();
        elements.push(self);
        elements
    }

    fn is_empty(&self) -> (empty: bool) {
        false
    }
}

impl ParseFromJSON for i32 {
    open spec fn spec_parse_from_json(value: ValueView) -> Result<i32, ParseErrorView> {
        match value {
            ValueView::Number(Number::Integer(n)) => if i32::MIN <= n <= i32::MAX {
                Ok(n as i32)
            } else {
                Err(ParseErrorView::Custom("integer out of range"@))
            },
            _ => Err(ParseErrorView::ExpectedType(value)),
        }
    }

    fn parse_from_json(value: Option<Value>) -> (parsed: Result<i32, ParseError>) {
        match Value::or_null(value) {
            Value::Number(Number::Integer(n)) => {
                if -2147483648 <= n && n <= 2147483647 {
                    Ok(n as i32)
                } else {
                    Err(ParseError::custom("integer out of range"))
                }
            },
            other => Err(ParseError::expected_type(other)),
        }
    }
}

impl ToJSON for i32 {
    open spec fn spec_to_json(content: i32) -> Option<ValueView> {
        Some(ValueView::Number(Number::Integer(content as i128)))
    }

    fn to_json(&self) -> (json: Option<Value>) {
        Some(Value::Number(Number::Integer(*self as i128)))
    }
}

/// Every value that reads as a 32-bit integer is written again as itself.
pub proof fn lemma_int32_reads_back(value: ValueView)
    ensures
        reads_back::<i32>(value),
{
}

} // verus!
