//! The capabilities of a bindable type and the conversions built on them.

pub mod error;
pub mod external;
pub mod collection;
pub mod integer;
pub mod number;
pub mod string;

use vstd::prelude::*;
use crate::registry::{
    distinct_names, resolves, Entries, MetaSchemaRef, MetaSchemaRefView, Registry,
};
use crate::text::texts_view;
use crate::types::error::{ParseError, ParseErrorView};
use crate::value::{Value, ValueView};

verus! {

/// The content of a conversion's outcome.
pub open spec fn parse_result_view<T: DeepView>(parsed: Result<T, ParseError>) -> Result<
    T::V,
    ParseErrorView,
> {
    match parsed {
        Ok(value) => Ok(value.deep_view()),
        Err(error) => Err(error@),
    }
}

/// The content of a serialized value, where there is one.
pub open spec fn json_view(json: Option<Value>) -> Option<ValueView> {
    match json {
        Some(value) => Some(value@),
        None => None,
    }
}

/// What every bindable type says of itself: its name, whether it must be
/// present, its schema, what it adds to the registry, and its raw values.
///
/// A type's content, over which its conversions are stated, is its
/// `deep_view`.
pub trait Type: Sized + DeepView {
    /// The value as it is handed to presence and default logic.
    type RawValueType;

    /// One element of the value when it is read as a collection.
    type RawElementValueType;

    /// The type's name: the same at every call, and different for types with
    /// different components.
    spec fn spec_name() -> Seq<char>;

    /// Whether an absent value is an error.
    spec fn spec_is_required() -> bool;

    /// The type's schema.
    spec fn spec_schema_ref() -> MetaSchemaRefView;

    /// What the registry holds once the type, and each of its components, is
    /// registered.
    spec fn spec_register(entries: Entries) -> Entries;

    /// The raw value, when the value is present.
    spec fn spec_as_raw_value(&self) -> Option<Self::RawValueType>;

    /// The raw elements, in order.
    spec fn spec_raw_elements(&self) -> Seq<Self::RawElementValueType>;

    /// Whether the value has no elements.
    spec fn spec_is_empty(&self) -> bool;

    /// Registering a type never makes the registry hold a name twice.
    proof fn lemma_register_keeps_names_distinct(entries: Entries)
        requires
            distinct_names(entries),
        ensures
            distinct_names(Self::spec_register(entries)),
    ;

    /// Once a type is registered, every name that its schema refers to is
    /// held by the registry.
    proof fn lemma_register_resolves(entries: Entries)
        ensures
            resolves(Self::spec_schema_ref(), Self::spec_register(entries)),
    ;

    /// Registering a type a second time changes nothing.
    proof fn lemma_register_idempotent(entries: Entries)
        ensures
            Self::spec_register(Self::spec_register(entries)) == Self::spec_register(entries),
    ;

    /// The type's name.
    fn name() -> (name: String)
        ensures
            name@ == Self::spec_name(),
    ;

    /// Whether an absent value is an error.
    fn is_required() -> (required: bool)
        ensures
            required == Self::spec_is_required(),
    ;

    /// The type's schema.
    fn schema_ref() -> (schema: MetaSchemaRef)
        ensures
            schema@ == Self::spec_schema_ref(),
    ;

    /// Makes sure that the registry holds the schemas of the type and of each
    /// of its components. Doing so again changes nothing.
    fn register(registry: &mut Registry)
        requires
            old(registry).wf(),
        ensures
            final(registry).wf(),
            final(registry)@ == Self::spec_register(old(registry)@),
    ;

    /// The raw value, when the value is present.
    fn as_raw_value(&self) -> (raw: Option<&Self::RawValueType>)
        ensures
            match raw {
                Some(raw) => self.spec_as_raw_value() == Some(*raw),
                None => self.spec_as_raw_value().is_none(),
            },
    ;

    /// The raw elements, in order. The value is only borrowed, so the elements
    /// can be asked for again.
    fn raw_element_iter(&self) -> (elements: Vec<&Self::RawElementValueType>)
        ensures
            elements@.len() == self.spec_raw_elements().len(),
            forall|i: int|
                0 <= i < elements@.len() ==> *(#[trigger] elements@[i])
                    == self.spec_raw_elements()[i],
    ;

    /// Whether the value has no elements.
    fn is_empty(&self) -> (empty: bool)
        ensures
            empty == self.spec_is_empty(),
    ;
}

/// What the registry holds after a type was registered `times` times.
pub open spec fn register_repeatedly<T: Type>(entries: Entries, times: nat) -> Entries
    decreases times,
{
    if times == 0 {
        entries
    } else {
        T::spec_register(register_repeatedly::<T>(entries, (times - 1) as nat))
    }
}

/// Registering a type any number of times, at least once, gives what one
/// registration gives.
pub proof fn lemma_register_repeatedly<T: Type>(entries: Entries, times: nat)
    requires
        times >= 1,
    ensures
        register_repeatedly::<T>(entries, times) == T::spec_register(entries),
    decreases times,
{
    if times > 1 {
        lemma_register_repeatedly::<T>(entries, (times - 1) as nat);
        T::lemma_register_idempotent(entries);
    } else {
        assert(register_repeatedly::<T>(entries, 0) == entries);
    }
}

/// The content of each item of `items`.
pub open spec fn deep_seq<T: DeepView>(items: Seq<T>) -> Seq<T::V> {
    Seq::new(items.len(), |i: int| items[i].deep_view())
}

/// The raw values of the items that have one, in order.
pub open spec fn present_raw_values<T: Type>(items: Seq<T>) -> Seq<T::RawValueType>
    decreases items.len(),
{
    if items.len() == 0 {
        Seq::empty()
    } else {
        let before = present_raw_values(items.drop_last());
        match items.last().spec_as_raw_value() {
            Some(raw) => before.push(raw),
            None => before,
        }
    }
}

/// Conversion from a JSON-like value. An absent value reads as `Null`.
pub trait ParseFromJSON: Type {
    /// The outcome of the conversion for each value.
    spec fn spec_parse_from_json(value: ValueView) -> Result<Self::V, ParseErrorView>;

    /// Reads a value of the type from `value`.
    fn parse_from_json(value: Option<Value>) -> (parsed: Result<Self, ParseError>)
        ensures
            parse_result_view(parsed) == Self::spec_parse_from_json(Value::spec_or_null(value)),
    ;
}

/// Conversion to a JSON-like value.
pub trait ToJSON: Type {
    /// The serialized form of a value with the given content, where it has one.
    spec fn spec_to_json(content: Self::V) -> Option<ValueView>;

    /// The serialized form of the value, where it has one.
    fn to_json(&self) -> (json: Option<Value>)
        ensures
            json_view(json) == Self::spec_to_json(self.deep_view()),
    ;
}

/// Whether a type writes `value` again after reading it: where the value can
/// be read, serializing what was read gives the value back.
pub open spec fn reads_back<T: ParseFromJSON + ToJSON>(value: ValueView) -> bool {
    T::spec_parse_from_json(value) matches Ok(content) ==> T::spec_to_json(content) == Some(value)
}

/// Conversion from the text of a parameter: from one occurrence, or from all
/// the occurrences of a parameter, in order.
pub trait ParseFromParameter: Type {
    /// The outcome for one occurrence.
    spec fn spec_parse_from_parameter(value: Seq<char>) -> Result<Self::V, ParseErrorView>;

    /// The outcome for the occurrences of a parameter.
    spec fn spec_parse_from_parameters(values: Seq<Seq<char>>) -> Result<Self::V, ParseErrorView>;

    /// Reads a value of the type from one occurrence of a parameter.
    fn parse_from_parameter(value: &str) -> (parsed: Result<Self, ParseError>)
        ensures
            parse_result_view(parsed) == Self::spec_parse_from_parameter(value@),
    ;

    /// Reads a value of the type from the occurrences of a parameter.
    fn parse_from_parameters(values: &Vec<&str>) -> (parsed: Result<Self, ParseError>)
        ensures
            parse_result_view(parsed) == Self::spec_parse_from_parameters(texts_view(values@)),
    ;
}

/// The one occurrence that a type reading a single occurrence is given: the
/// occurrence when there is exactly one; an input is expected when there is
/// none, and more than one is refused.
pub open spec fn spec_single_value(values: Seq<Seq<char>>) -> Result<Seq<char>, ParseErrorView> {
    if values.len() == 0 {
        Err(ParseErrorView::ExpectedInput)
    } else if values.len() == 1 {
        Ok(values[0])
    } else {
        Err(ParseErrorView::Custom("expected a single value"@))
    }
}

/// Picks the one occurrence out of the occurrences of a parameter.
pub fn single_value<'a>(values: &Vec<&'a str>) -> (picked: Result<&'a str, ParseError>)
    ensures
        match picked {
            Ok(value) => spec_single_value(texts_view(values@)) == Ok::<Seq<char>, ParseErrorView>(
                value@,
            ),
            Err(error) => spec_single_value(texts_view(values@)) == Err::<
                Seq<char>,
                ParseErrorView,
            >(error@),
        },
{
    if values.len() == 0 {
        Err(ParseError::expected_input())
    } else if values.len() == 1 {
        Ok(values[0])
    } else {
        Err(ParseError::custom("expected a single value"))
    }
}

/// What was read of a multipart field's text, as far as the conversion is
/// concerned: the text, or the reason it could not be read.
pub open spec fn field_view(field: Option<Result<String, String>>) -> Option<
    Result<Seq<char>, Seq<char>>,
> {
    match field {
        Some(Ok(text)) => Some(Ok(text@)),
        Some(Err(reason)) => Some(Err(reason@)),
        None => None,
    }
}

/// Conversion from a multipart field, given as what reading its text gave:
/// nothing when the field is absent, else the text or the reason why it
/// could not be read.
pub trait ParseFromMultipartField: Type {
    /// The outcome for each field.
    spec fn spec_parse_from_multipart(field: Option<Result<Seq<char>, Seq<char>>>) -> Result<
        Self::V,
        ParseErrorView,
    >;

    /// Reads a value of the type from what reading a field's text gave.
    fn parse_from_multipart(field: Option<Result<String, String>>) -> (parsed: Result<
        Self,
        ParseError,
    >)
        ensures
            parse_result_view(parsed) == Self::spec_parse_from_multipart(field_view(field)),
    ;
}

} // verus!
