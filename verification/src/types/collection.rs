//! Sequences of a bindable type as a bindable type.

use vstd::prelude::*;
use vstd::string::*;
use crate::registry::{Entries, MetaSchema, MetaSchemaRef, MetaSchemaRefView, MetaSchemaView, Registry};
use crate::text::texts_view;
use crate::types::error::{ParseError, ParseErrorView};
use crate::types::{deep_seq, present_raw_values, ParseFromParameter, Type};

verus! {

/// The contents read from `values`, one per occurrence and in order. The
/// first occurrence that cannot be read decides the outcome: its error,
/// marked as that of a component.
pub open spec fn parse_each<T: ParseFromParameter>(values: Seq<Seq<char>>) -> Result<
    Seq<T::V>,
    ParseErrorView,
>
    decreases values.len(),
{
    if values.len() == 0 {
        Ok(Seq::empty())
    } else {
        match parse_each::<T>(values.drop_last()) {
            Ok(before) => match T::spec_parse_from_parameter(values.last()) {
                Ok(content) => Ok(before.push(content)),
                Err(error) => Err(ParseErrorView::Propagated(Box::new(error))),
            },
            Err(error) => Err(error),
        }
    }
}

/// A failure among the first occurrences is the failure of the whole.
proof fn lemma_parse_each_fails_early<T: ParseFromParameter>(values: Seq<Seq<char>>, count: int)
    requires
        0 <= count <= values.len(),
        parse_each::<T>(values.take(count)) is Err,
    ensures
        parse_each::<T>(values) == parse_each::<T>(values.take(count)),
    decreases values.len(),
{
    if count == values.len() {
        assert(values.take(count) =~= values);
    } else {
        assert(values.drop_last().take(count) =~= values.take(count));
        lemma_parse_each_fails_early::<T>(values.drop_last(), count);
    }
}

impl<T: Type> Type for Vec<T> {
    type RawValueType = Vec<T>;

    type RawElementValueType = T::RawValueType;

    open spec fn spec_name() -> Seq<char> {
        "["@ + T::spec_name() + "]"@
    }

    open spec fn spec_is_required() -> bool {
        true
    }

    open spec fn spec_schema_ref() -> MetaSchemaRefView {
        MetaSchemaRefView::Inline(Box::new(MetaSchemaView::array_of(T::spec_schema_ref())))
    }

    open spec fn spec_register(entries: Entries) -> Entries {
        T::spec_register(entries)
    }

    open spec fn spec_as_raw_value(&self) -> Option<Vec<T>> {
        Some(*self)
    }

    open spec fn spec_raw_elements(&self) -> Seq<T::RawValueType> {
        present_raw_values(self@)
    }

    open spec fn spec_is_empty(&self) -> bool {
        self@.len() == 0
    }

    proof fn lemma_register_keeps_names_distinct(entries: Entries) {
        T::lemma_register_keeps_names_distinct(entries);
    }

    proof fn lemma_register_resolves(entries: Entries) {
        T::lemma_register_resolves(entries);
    }

    proof fn lemma_register_idempotent(entries: Entries) {
        T::lemma_register_idempotent(entries);
    }

    fn name() -> (name: String) {
        String::from_str("[").concat(T::name().as_str()).concat("]")
    }

    fn is_required() -> (required: bool) {
        true
    }

    fn schema_ref() -> (schema: MetaSchemaRef) {
        MetaSchemaRef::Inline(Box::new(MetaSchema::array_of(T::schema_ref())))
    }

    fn register(registry: &mut Registry) {
        T::register(registry);
    }

    fn as_raw_value(&self) -> (raw: Option<&Vec<T>>) {
        Some(self)
    }

    fn raw_element_iter(&self) -> (elements: Vec<&T::RawValueType>) {
        let mut elements: Vec<&T::RawValueType> = Vec::new();
        let mut i: usize = 0;
        while i < self.len()
            invariant
                i <= self@.len(),
                elements@.len() == present_raw_values(self@.take(i as int)).len(),
                forall|k: int|
                    0 <= k < elements@.len() ==> *(#[trigger] elements@[k]) == present_raw_values(
                        self@.take(i as int),
                    )[k],
            decreases self@.len() - i,
        {
            assert(self@.take(i + 1).drop_last() =~= self@.take(i as int));
            match self[i].as_raw_value() {
                Some(raw) => {
                    elements.push(raw);
                },
                None => {},
            }
            i += 1;
        }
        assert(self@.take(i as int) =~= self@);
        elements
    }

    fn is_empty(&self) -> (empty: bool) {
        self.len() == 0
    }
}

impl<T: ParseFromParameter> ParseFromParameter for Vec<T> {
    open spec fn spec_parse_from_parameter(value: Seq<char>) -> Result<Seq<T::V>, ParseErrorView> {
        parse_each::<T>(seq![value])
    }

    open spec fn spec_parse_from_parameters(values: Seq<Seq<char>>) -> Result<
        Seq<T::V>,
        ParseErrorView,
    > {
        parse_each::<T>(values)
    }

    fn parse_from_parameter(value: &str) -> (parsed: Result<Vec<T>, ParseError>) {
        let mut values: Vec<&str> = Vec::new();
        values.push(value);
        assert(texts_view(values@) =~= seq![value@]);
        Self::parse_from_parameters(&values)
    }

    fn parse_from_parameters(values: &Vec<&str>) -> (parsed: Result<Vec<T>, ParseError>) {
        let ghost texts = texts_view(values@);
        let mut elements: Vec<T> = Vec::new();
        let mut i: usize = 0;
        assert(texts.take(0) =~= Seq::<Seq<char>>::empty());
        assert(deep_seq(elements@) =~= Seq::<T::V>::empty());
        while i < values.len()
            invariant
                i <= values@.len(),
                texts == texts_view(values@),
                parse_each::<T>(texts.take(i as int)) == Ok::<Seq<T::V>, ParseErrorView>(
                    deep_seq(elements@),
                ),
            decreases values@.len() - i,
        {
            assert(texts.take(i + 1).drop_last() =~= texts.take(i as int));
            match T::parse_from_parameter(values[i]) {
                Ok(element) => {
                    assert(deep_seq(elements@.push(element)) =~= deep_seq(elements@).push(
                        element.deep_view(),
                    ));
                    elements.push(element);
                },
                Err(error) => {
                    proof {
                        lemma_parse_each_fails_early::<T>(texts, i + 1);
                    }
                    return Err(error.propagate());
                },
            }
            i += 1;
        }
        assert(texts.take(i as int) =~= texts);
        assert(elements.deep_view() =~= deep_seq(elements@));
        Ok(elements)
    }
}

} // verus!
