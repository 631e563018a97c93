//! An instant in time, read and written as RFC 3339 text by `jiff`.

use vstd::prelude::*;
use vstd::string::*;
use crate::registry::{Entries, MetaSchema, MetaSchemaRef, MetaSchemaRefView, MetaSchemaView, Registry};
use crate::types::error::{ParseError, ParseErrorView};
use crate::types::{
    parse_result_view, reads_back, single_value, spec_single_value, ParseFromJSON,
    ParseFromMultipartField, ParseFromParameter, ToJSON, Type,
};
use crate::value::{Value, ValueView};

verus! {

/// What `jiff` reads `text` as: the whole seconds since the Unix epoch and
/// the nanoseconds beside them, or the reason for which it refuses the text.
pub uninterp spec fn timestamp_from_text(text: Seq<char>) -> Result<(i64, i32), Seq<char>>;

/// The text that `jiff` writes for the instant with these parts, when they
/// lie in the range of instants that it supports.
pub uninterp spec fn timestamp_text(second: i64, nanosecond: i32) -> Option<Seq<char>>;

/// `jiff::Timestamp`'s `FromStr`, with the instant handed back as
/// `as_second` and `subsec_nanosecond` give it and the error as its message.
/// The outcome depends on the text alone. Nothing is claimed of the parts
/// beyond that.
#[verifier::external_body]
fn parse_timestamp(text: &str) -> (parsed: Result<(i64, i32), String>)
    ensures
        match parsed {
            Ok(parts) => timestamp_from_text(text@) == Ok::<(i64, i32), Seq<char>>(parts),
            Err(reason) => timestamp_from_text(text@) == Err::<(i64, i32), Seq<char>>(reason@),
        },
{
    match text.parse::<jiff::Timestamp>() {
        Ok(instant) => Ok((instant.as_second(), instant.subsec_nanosecond())),
        Err(error) => Err(error.to_string()),
    }
}

/// `jiff::Timestamp::new` followed by its `Display`: the text of the instant
/// with these parts, or nothing where `new` refuses them as out of range.
#[verifier::external_body]
fn print_timestamp(second: i64, nanosecond: i32) -> (text: Option<String>)
    ensures
        match text {
            Some(text) => timestamp_text(second, nanosecond) == Some(text@),
            None => timestamp_text(second, nanosecond).is_none(),
        },
{
    match jiff::Timestamp::new(second, nanosecond) {
        Ok(instant) => Some(instant.to_string()),
        Err(_) => None,
    }
}

/// An instant in time: whole seconds since the Unix epoch and the
/// nanoseconds beside them. The parts of every value are balanced, so that
/// an instant has one value, and every value is an instant that can be
/// written as text.
#[derive(Clone, Copy, Debug, PartialEq, Eq)]
pub struct Timestamp {
    second: i64,
    nanosecond: i32,
}

/// The content of a [`Timestamp`].
pub ghost struct TimestampView {
    pub second: i64,
    pub nanosecond: i32,
}

/// Whether the nanoseconds amount to less than a second, either way.
pub open spec fn within_a_second(nanosecond: i32) -> bool {
    -1_000_000_000 < nanosecond < 1_000_000_000
}

/// Parts are balanced when the nanoseconds are within a second and do not
/// point the other way than the seconds.
pub open spec fn balanced(second: i64, nanosecond: i32) -> bool {
    &&& within_a_second(nanosecond)
    &&& !(second > 0 && nanosecond < 0)
    &&& !(second < 0 && nanosecond > 0)
}

/// The balanced parts of the instant that is `nanosecond` nanoseconds from
/// the second `second`.
pub open spec fn balance(second: i64, nanosecond: i32) -> (i64, i32) {
    if second > 0 && nanosecond < 0 {
        ((second - 1) as i64, (nanosecond + 1_000_000_000) as i32)
    } else if second < 0 && nanosecond > 0 {
        ((second + 1) as i64, (nanosecond - 1_000_000_000) as i32)
    } else {
        (second, nanosecond)
    }
}

/// The instant that is `nanosecond` nanoseconds from the second `second`, if
/// the nanoseconds are within a second and the instant can be written.
pub open spec fn spec_new(second: i64, nanosecond: i32) -> Option<TimestampView> {
    let parts = balance(second, nanosecond);
    if within_a_second(nanosecond) && timestamp_text(parts.0, parts.1).is_some() {
        Some(TimestampView { second: parts.0, nanosecond: parts.1 })
    } else {
        None
    }
}

/// The outcome of reading an instant, as the outcome of a conversion: what
/// was read must itself be an instant that can be written.
pub open spec fn timestamp_outcome(read: Result<(i64, i32), Seq<char>>) -> Result<
    TimestampView,
    ParseErrorView,
> {
    match read {
        Ok(parts) => match spec_new(parts.0, parts.1) {
            Some(instant) => Ok(instant),
            None => Err(ParseErrorView::Custom("instant out of range"@)),
        },
        Err(reason) => Err(ParseErrorView::Custom(reason)),
    }
}

impl DeepView for Timestamp {
    type V = TimestampView;

    closed spec fn deep_view(&self) -> TimestampView {
        TimestampView { second: self.second, nanosecond: self.nanosecond }
    }
}

impl Timestamp {
    #[verifier::type_invariant]
    spec fn balanced_and_written(&self) -> bool {
        &&& balanced(self.second, self.nanosecond)
        &&& timestamp_text(self.second, self.nanosecond).is_some()
    }

    /// The instant that is `nanosecond` nanoseconds from the second `second`,
    /// with its parts balanced, if the nanoseconds are within a second and
    /// the instant is one that can be written.
    pub fn new(second: i64, nanosecond: i32) -> (instant: Option<Timestamp>)
        ensures
            match instant {
                Some(instant) => spec_new(second, nanosecond) == Some(instant.deep_view()),
                None => spec_new(second, nanosecond).is_none(),
            },
    {
        if nanosecond <= -1_000_000_000 || nanosecond >= 1_000_000_000 {
            return None;
        }
        let (second, nanosecond) = if second > 0 && nanosecond < 0 {
            (second - 1, nanosecond + 1_000_000_000)
        } else if second < 0 && nanosecond > 0 {
            (second + 1, nanosecond - 1_000_000_000)
        } else {
            (second, nanosecond)
        };
        match print_timestamp(second, nanosecond) {
            Some(_) => Some(Timestamp { second, nanosecond }),
            None => None,
        }
    }

    /// The whole seconds since the Unix epoch. Together with the nanoseconds
    /// they are balanced parts of an instant that can be written.
    pub fn as_second(&self) -> (second: i64)
        ensures
            second == self.deep_view().second,
            balanced(self.deep_view().second, self.deep_view().nanosecond),
            timestamp_text(self.deep_view().second, self.deep_view().nanosecond).is_some(),
    {
        proof {
            use_type_invariant(self);
        }
        self.second
    }

    /// The nanoseconds beside the whole seconds.
    pub fn subsec_nanosecond(&self) -> (nanosecond: i32)
        ensures
            nanosecond == self.deep_view().nanosecond,
    {
        self.nanosecond
    }

    /// The instant that `text` denotes.
    fn from_text(text: &str) -> (parsed: Result<Timestamp, ParseError>)
        ensures
            parse_result_view(parsed) == timestamp_outcome(timestamp_from_text(text@)),
    {
        match parse_timestamp(text) {
            Ok(parts) => match Timestamp::new(parts.0, parts.1) {
                Some(instant) => Ok(instant),
                None => Err(ParseError::custom("instant out of range")),
            },
            Err(reason) => Err(ParseError::Custom(reason)),
        }
    }
}

impl Type for Timestamp {
    type RawValueType = Timestamp;

    type RawElementValueType = Timestamp;

    open spec fn spec_name() -> Seq<char> {
        "string_date-time"@
    }

    open spec fn spec_is_required() -> bool {
        true
    }

    open spec fn spec_schema_ref() -> MetaSchemaRefView {
        MetaSchemaRefView::Inline(
            Box::new(MetaSchemaView::of_type_with_format("string"@, "date-time"@)),
        )
    }

    open spec fn spec_register(entries: Entries) -> Entries {
        entries
    }

    open spec fn spec_as_raw_value(&self) -> Option<Timestamp> {
        Some(*self)
    }

    open spec fn spec_raw_elements(&self) -> Seq<Timestamp> {
        seq![*self]
    }

    open spec fn spec_is_empty(&self) -> bool {
        false
    }

    proof fn lemma_register_keeps_names_distinct(entries: Entries) {
    }

    proof fn lemma_register_resolves(entries: Entries) {
    }

    proof fn lemma_register_idempotent(entries: Entries) {
    }

    fn name() -> (name: String) {
        String::from_str("string_date-time")
    }

    fn is_required() -> (required: bool) {
        true
    }

    fn schema_ref() -> (schema: MetaSchemaRef) {
        MetaSchemaRef::Inline(Box::new(MetaSchema::new_with_format("string", "date-time")))
    }

    fn register(registry: &mut Registry) {
    }

    fn as_raw_value(&self) -> (raw: Option<&Timestamp>) {
        Some(self)
    }

    fn raw_element_iter(&self) -> (elements: Vec<&Timestamp>) {
        let mut elements: Vec<&Timestamp> = Vec::new();
        elements.push(self);
        elements
    }

    fn is_empty(&self) -> (empty: bool) {
        false
    }
}

impl ParseFromJSON for Timestamp {
    open spec fn spec_parse_from_json(value: ValueView) -> Result<TimestampView, ParseErrorView> {
        match value {
            ValueView::String(text) => timestamp_outcome(timestamp_from_text(text)),
            _ => Err(ParseErrorView::ExpectedType(value)),
        }
    }

    fn parse_from_json(value: Option<Value>) -> (parsed: Result<Timestamp, ParseError>) {
        match Value::or_null(value) {
            Value::String(text) => Timestamp::from_text(text.as_str()),
            other => Err(ParseError::expected_type(other)),
        }
    }
}

impl ParseFromParameter for Timestamp {
    open spec fn spec_parse_from_parameter(value: Seq<char>) -> Result<
        TimestampView,
        ParseErrorView,
    > {
        timestamp_outcome(timestamp_from_text(value))
    }

    open spec fn spec_parse_from_parameters(values: Seq<Seq<char>>) -> Result<
        TimestampView,
        ParseErrorView,
    > {
        match spec_single_value(values) {
            Ok(value) => timestamp_outcome(timestamp_from_text(value)),
            Err(error) => Err(error),
        }
    }

    fn parse_from_parameter(value: &str) -> (parsed: Result<Timestamp, ParseError>) {
        Timestamp::from_text(value)
    }

    fn parse_from_parameters(values: &Vec<&str>) -> (parsed: Result<Timestamp, ParseError>) {
        match single_value(values) {
            Ok(value) => Timestamp::from_text(value),
            Err(error) => Err(error),
        }
    }
}

impl ParseFromMultipartField for Timestamp {
    open spec fn spec_parse_from_multipart(field: Option<Result<Seq<char>, Seq<char>>>) -> Result<
        TimestampView,
        ParseErrorView,
    > {
        match field {
            Some(Ok(text)) => timestamp_outcome(timestamp_from_text(text)),
            Some(Err(reason)) => Err(ParseErrorView::Custom(reason)),
            None => Err(ParseErrorView::ExpectedInput),
        }
    }

    fn parse_from_multipart(field: Option<Result<String, String>>) -> (parsed: Result<
        Timestamp,
        ParseError,
    >) {
        match field {
            Some(Ok(text)) => Timestamp::from_text(text.as_str()),
            Some(Err(reason)) => Err(ParseError::Custom(reason)),
            None => Err(ParseError::expected_input()),
        }
    }
}

impl ToJSON for Timestamp {
    open spec fn spec_to_json(content: TimestampView) -> Option<ValueView> {
        match timestamp_text(content.second, content.nanosecond) {
            Some(text) => Some(ValueView::String(text)),
            None => None,
        }
    }

    fn to_json(&self) -> (json: Option<Value>)
        ensures
            json.is_some(),
    {
        proof {
            use_type_invariant(self);
        }
        match print_timestamp(self.second, self.nanosecond) {
            Some(text) => Some(Value::String(text)),
            None => None,
        }
    }
}

/// A text is written again as itself when it is the written form of the
/// instant that it reads as. Other texts of the same instant, such as one
/// with an offset, are written in the one form that the instant has.
pub proof fn lemma_written_text_reads_back(text: Seq<char>)
    requires
        timestamp_from_text(text) matches Ok(parts) && spec_new(parts.0, parts.1) matches Some(
            instant,
        ) && timestamp_text(instant.second, instant.nanosecond) == Some(text),
    ensures
        Timestamp::spec_parse_from_json(ValueView::String(text)) is Ok,
        reads_back::<Timestamp>(ValueView::String(text)),
{
}

} // verus!
