//! A parameter taken from the query string.

use vstd::prelude::*;
use crate::base::{matching_values, ApiExtractorType, ExtractParamOptions, UrlQuery};
use crate::error::ParseParamError;
use crate::registry::{MetaParamIn, MetaSchemaRef, Registry};
use crate::text::{split_commas, split_on, texts_view, trim, trim_each};
use crate::types::error::{ParseError, ParseErrorView};
use crate::types::{ParseFromParameter, Type};

verus! {

/// Represents the parameters passed by the query string.
#[derive(Debug, PartialEq, Eq)]
pub struct Query<T>(pub T);

/// The texts that are handed to the conversion: every occurrence when each
/// occurrence is one element; else the pieces of the first occurrence
/// between commas, each trimmed, and nothing of the later occurrences.
pub open spec fn handed_values(found: Seq<Seq<char>>, explode: bool) -> Seq<Seq<char>> {
    if explode || found.len() == 0 {
        found
    } else {
        trim_each(split_on(found[0], ','))
    }
}

/// The outcome of an extraction, given the outcome of the conversion: a
/// failure names the parameter and gives the error's message as the reason.
pub open spec fn named_outcome<V>(name: Seq<char>, outcome: Result<V, ParseErrorView>) -> Result<
    V,
    (Seq<char>, Seq<char>),
> {
    match outcome {
        Ok(content) => Ok(content),
        Err(error) => Err((name, error.message())),
    }
}

/// The content of an extraction's outcome.
pub open spec fn extraction_view<T: DeepView>(extracted: Result<Query<T>, ParseParamError>) -> Result<
    T::V,
    (Seq<char>, Seq<char>),
> {
    match extracted {
        Ok(query) => Ok(query.0.deep_view()),
        Err(error) => Err(error.view()),
    }
}

impl<T> Query<T> {
    /// The value that was extracted.
    pub fn deref(&self) -> (inner: &T)
        ensures
            *inner == self.0,
    {
        &self.0
    }

    /// The value that was extracted, to be changed in place.
    pub fn deref_mut(&mut self) -> (inner: &mut T)
        ensures
            *inner == old(self).0,
            final(self).0 == *final(inner),
    {
        &mut self.0
    }
}

impl<T: ParseFromParameter> Query<T> {
    /// What the extractor takes from a request: a parameter.
    pub fn types() -> (types: Vec<ApiExtractorType>)
        ensures
            types@ == seq![ApiExtractorType::Parameter],
    {
        let mut types: Vec<ApiExtractorType> = Vec::new();
        types.push(ApiExtractorType::Parameter);
        assert(types@ =~= seq![ApiExtractorType::Parameter]);
        types
    }

    /// Whether the parameter must occur: whether its type must be present.
    pub fn param_is_required() -> (required: bool)
        ensures
            required == T::spec_is_required(),
    {
        T::is_required()
    }

    /// Registers the schema of the parameter's type.
    pub fn register(registry: &mut Registry)
        requires
            old(registry).wf(),
        ensures
            final(registry).wf(),
            final(registry)@ == T::spec_register(old(registry)@),
    {
        T::register(registry);
    }

    /// The parameter is read from the query string.
    pub fn param_in() -> (place: Option<MetaParamIn>)
        ensures
            place == Some(MetaParamIn::Query),
    {
        Some(MetaParamIn::Query)
    }

    /// The schema of the parameter's type.
    pub fn param_schema_ref() -> (schema: Option<MetaSchemaRef>)
        ensures
            schema matches Some(schema) && schema@ == T::spec_schema_ref(),
    {
        Some(T::schema_ref())
    }

    /// The raw value of what was extracted, when it is present.
    pub fn param_raw_type(&self) -> (raw: Option<&T::RawValueType>)
        ensures
            match raw {
                Some(raw) => self.0.spec_as_raw_value() == Some(*raw),
                None => self.0.spec_as_raw_value().is_none(),
            },
    {
        self.0.as_raw_value()
    }

    /// Extracts the parameter from the query string.
    ///
    /// The occurrences of the parameter are those under its name, or under
    /// its name up to ASCII case when `ignore_case` is set.
    ///
    /// When there is no occurrence and a default is configured, the value is
    /// what the default produces, and nothing is parsed. When there is no
    /// occurrence and no default, the extraction of a type that must be
    /// present fails because an input was expected, whatever the type would
    /// make of no text at all: a sequence type is not read as the empty
    /// sequence. A type that need not be present is given no text to read.
    ///
    /// In every other case the occurrences are handed to the conversion as
    /// [`handed_values`] says. Every failure is reported under the
    /// parameter's name, with the error's message as the reason.
    ///
    /// The default must be one that can be called.
    pub fn from_request<F: FnOnce() -> T>(
        url_query: &UrlQuery,
        param_opts: ExtractParamOptions<F>,
    ) -> (extracted: Result<Query<T>, ParseParamError>)
        requires
            param_opts.default_value matches Some(produce) ==> call_requires(produce, ()),
        ensures
            ({
                let found = matching_values(url_query@, param_opts.name@, param_opts.ignore_case);
                if found.len() == 0 && param_opts.default_value.is_some() {
                    extracted matches Ok(query) && call_ensures(
                        param_opts.default_value->Some_0,
                        (),
                        query.0,
                    )
                } else if found.len() == 0 && T::spec_is_required() {
                    extraction_view(extracted) == named_outcome::<T::V>(
                        param_opts.name@,
                        Err(ParseErrorView::ExpectedInput),
                    )
                } else {
                    extraction_view(extracted) == named_outcome(
                        param_opts.name@,
                        T::spec_parse_from_parameters(handed_values(found, param_opts.explode)),
                    )
                }
            }),
    {
        let values = if !param_opts.ignore_case {
            url_query.get_all(param_opts.name)
        } else {
            url_query.get_all_ignore_ascii_case(param_opts.name)
        };
        if values.len() == 0 {
            match param_opts.default_value {
                Some(produce) => {
                    return Ok(Query(produce()));
                },
                None => {},
            }
            if T::is_required() {
                return Err(
                    ParseParamError {
                        name: param_opts.name,
                        reason: ParseError::expected_input().into_message(),
                    },
                );
            }
        }
        let handed = if param_opts.explode || values.len() == 0 {
            values
        } else {
            let pieces = split_commas(values[0]);
            let ghost wanted = trim_each(split_on(values@[0]@, ','));
            let mut trimmed: Vec<&str> = Vec::new();
            let mut i: usize = 0;
            assert(texts_view(trimmed@) =~= wanted.take(0));
            while i < pieces.len()
                invariant
                    i <= pieces@.len(),
                    texts_view(pieces@) == split_on(values@[0]@, ','),
                    wanted == trim_each(split_on(values@[0]@, ',')),
                    texts_view(trimmed@) == wanted.take(i as int),
                decreases pieces@.len() - i,
            {
                let ghost before = texts_view(trimmed@);
                assert(texts_view(pieces@)[i as int] == pieces@[i as int]@);
                trimmed.push(trim(pieces[i]));
                assert(texts_view(trimmed@) =~= before.push(wanted[i as int]));
                assert(wanted.take(i + 1) =~= wanted.take(i as int).push(wanted[i as int]));
                i += 1;
            }
            assert(wanted.take(i as int) =~= wanted);
            trimmed
        };
        match T::parse_from_parameters(&handed) {
            Ok(value) => Ok(Query(value)),
            Err(error) => Err(
                ParseParamError { name: param_opts.name, reason: error.into_message() },
            ),
        }
    }
}

} // verus!
