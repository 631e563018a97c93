//! What a request hands to the extraction of a parameter.

use vstd::prelude::*;
use crate::text::{eq_ignore_ascii_case, matches_ignoring_ascii_case, same_text, texts_view};

verus! {

/// What an extractor takes from a request.
#[derive(Clone, Copy, Debug, PartialEq, Eq, Structural)]
pub enum ApiExtractorType {
    /// The request's body.
    RequestObject,
    /// A parameter.
    Parameter,
    /// What a security scheme asks for.
    SecurityScheme,
    /// Anything else of the request.
    PoemExtractor,
}

/// The parameters of a query string: names with their values, in the order
/// in which they occur. A name may occur more than once.
#[derive(Debug, PartialEq, Eq)]
pub struct UrlQuery(pub Vec<(String, String)>);

/// Whether a parameter that occurs under `key` is the one asked for as
/// `name`.
pub open spec fn key_matches(key: Seq<char>, name: Seq<char>, ignore_case: bool) -> bool {
    if ignore_case {
        matches_ignoring_ascii_case(name, key)
    } else {
        key == name
    }
}

/// The values of the occurrences of `name` among `pairs`, in their order.
pub open spec fn matching_values(
    pairs: Seq<(Seq<char>, Seq<char>)>,
    name: Seq<char>,
    ignore_case: bool,
) -> Seq<Seq<char>>
    decreases pairs.len(),
{
    if pairs.len() == 0 {
        Seq::empty()
    } else {
        let before = matching_values(pairs.drop_last(), name, ignore_case);
        if key_matches(pairs.last().0, name, ignore_case) {
            before.push(pairs.last().1)
        } else {
            before
        }
    }
}

impl UrlQuery {
    /// The names and values, as characters.
    pub open spec fn view(&self) -> Seq<(Seq<char>, Seq<char>)> {
        Seq::new(self.0@.len(), |i: int| (self.0@[i].0@, self.0@[i].1@))
    }

    fn matching<'a>(&'a self, name: &str, ignore_case: bool) -> (values: Vec<&'a str>)
        ensures
            texts_view(values@) == matching_values(self@, name@, ignore_case),
    {
        let mut values: Vec<&'a str> = Vec::new();
        let mut i: usize = 0;
        assert(self@.take(0) =~= Seq::<(Seq<char>, Seq<char>)>::empty());
        assert(texts_view(values@) =~= Seq::<Seq<char>>::empty());
        while i < self.0.len()
            invariant
                i <= self.0@.len(),
                texts_view(values@) == matching_values(self@.take(i as int), name@, ignore_case),
            decreases self.0@.len() - i,
        {
            assert(self@.take(i + 1).drop_last() =~= self@.take(i as int));
            let key = self.0[i].0.as_str();
            let found = if ignore_case {
                eq_ignore_ascii_case(name, key)
            } else {
                same_text(key, name)
            };
            if found {
                let ghost before = texts_view(values@);
                values.push(self.0[i].1.as_str());
                assert(texts_view(values@) =~= before.push(self.0@[i as int].1@));
            }
            i += 1;
        }
        assert(self@.take(i as int) =~= self@);
        values
    }

    /// The values of the parameters named exactly `name`, in the order in
    /// which they occur.
    pub fn get_all<'a>(&'a self, name: &str) -> (values: Vec<&'a str>)
        ensures
            texts_view(values@) == matching_values(self@, name@, false),
    {
        self.matching(name, false)
    }

    /// The values of the parameters whose name is `name` up to ASCII case, in
    /// the order in which they occur.
    pub fn get_all_ignore_ascii_case<'a>(&'a self, name: &str) -> (values: Vec<&'a str>)
        ensures
            texts_view(values@) == matching_values(self@, name@, true),
    {
        self.matching(name, true)
    }
}

/// How a parameter is to be extracted: the name to look for, whether the
/// name's ASCII case counts, what produces the value when the parameter does
/// not occur, and whether each occurrence is one element (`explode`) or the
/// first occurrence lists the elements between commas.
pub struct ExtractParamOptions<F> {
    pub name: &'static str,
    pub ignore_case: bool,
    pub default_value: Option<F>,
    pub explode: bool,
}

} // verus!
