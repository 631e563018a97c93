//! Text as a bindable type.

use vstd::prelude::*;
use vstd::string::*;
use crate::registry::{Entries, MetaSchema, MetaSchemaRef, MetaSchemaRefView, MetaSchemaView, Registry};
use crate::types::error::{ParseError, ParseErrorView};
use crate::types::{single_value, spec_single_value, ParseFromParameter, Type};

verus! {

impl Type for String {
    type RawValueType = String;

    type RawElementValueType = String;

    open spec fn spec_name() -> Seq<char> {
        "string"@
    }

    open spec fn spec_is_required() -> bool {
        true
    }

    open spec fn spec_schema_ref() -> MetaSchemaRefView {
        MetaSchemaRefView::Inline(Box::new(MetaSchemaView::of_type("string"@)))
    }

    open spec fn spec_register(entries: Entries) -> Entries {
        entries
    }

    open spec fn spec_as_raw_value(&self) -> Option<String> {
        Some(*self)
    }

    open spec fn spec_raw_elements(&self) -> Seq<String> {
        seq![*self]
    }

    open spec fn spec_is_empty(&self) -> bool {
        false
    }

    proof fn lemma_register_keeps_names_distinct(entries: Entries) {
    }

    proof fn lemma_register_resolves(entries: Entries) {
    }

    proof fn lemma_register_idempotent(entries: Entries) {
    }

    fn name() -> (name: String) {
        String::from_str("string")
    }

    fn is_required() -> (required: bool) {
        true
    }

    fn schema_ref() -> (schema: MetaSchemaRef) {
        MetaSchemaRef::Inline(Box::new(MetaSchema::new("string")))
    }

    fn register(registry: &mut Registry) {
    }

    fn as_raw_value(&self) -> (raw: Option<&String>) {
        Some(self)
    }

    fn raw_element_iter(&self) -> (elements: Vec<&String>) {
        let mut elements: Vec<&String> = Vec::new();
        elements.push(self);
        elements
    }

    fn is_empty(&self) -> (empty: bool) {
        false
    }
}

impl ParseFromParameter for String {
    open spec fn spec_parse_from_parameter(value: Seq<char>) -> Result<Seq<char>, ParseErrorView> {
        Ok(value)
    }

    open spec fn spec_parse_from_parameters(values: Seq<Seq<char>>) -> Result<
        Seq<char>,
        ParseErrorView,
    > {
        spec_single_value(values)
    }

    fn parse_from_parameter(value: &str) -> (parsed: Result<String, ParseError>) {
        Ok(String::from_str(value))
    }

    fn parse_from_parameters(values: &Vec<&str>) -> (parsed: Result<String, ParseError>) {
        match single_value(values) {
            Ok(value) => Ok(String::from_str(value)),
            Err(error) => Err(error),
        }
    }
}

} // verus!
