//! The JSON-like value model that the conversions exchange.

use vstd::prelude::*;

verus! {

/// A JSON number: an integer, or any other finite number carried by the bit
/// pattern of its double-precision encoding.
#[derive(Clone, Copy, Debug, PartialEq, Eq, Structural)]
pub enum Number {
    Integer(i128),
    Float(u64),
}

/// A JSON-like value: null, boolean, number, string, ordered array, or an
/// object given as its entries in order.
#[derive(Debug, PartialEq, Eq)]
pub enum Value {
    Null,
    Bool(bool),
    Number(Number),
    String(String),
    Array(Vec<Value>),
    Object(Vec<(String, Value)>),
}

/// The mathematical content of a [`Value`].
pub ghost enum ValueView {
    Null,
    Bool(bool),
    Number(Number),
    String(Seq<char>),
    Array(Seq<ValueView>),
    Object(Seq<(Seq<char>, ValueView)>),
}

impl ValueView {
    /// The name of the value's kind.
    pub open spec fn kind(self) -> Seq<char> {
        match self {
            ValueView::Null => "null"@,
            ValueView::Bool(_) => "boolean"@,
            ValueView::Number(_) => "number"@,
            ValueView::String(_) => "string"@,
            ValueView::Array(_) => "array"@,
            ValueView::Object(_) => "object"@,
        }
    }
}

impl View for Value {
    type V = ValueView;

    open spec fn view(&self) -> ValueView
        decreases self,
    {
        match self {
            Value::Null => ValueView::Null,
            Value::Bool(b) => ValueView::Bool(*b),
            Value::Number(n) => ValueView::Number(*n),
            Value::String(s) => ValueView::String(s@),
            Value::Array(items) => ValueView::Array(
                Seq::new(
                    items.len() as nat,
                    |i: int|
                        if 0 <= i < items.len() {
                            items[i].view()
                        } else {
                            ValueView::Null
                        },
                ),
            ),
            Value::Object(entries) => ValueView::Object(
                Seq::new(
                    entries.len() as nat,
                    |i: int|
                        if 0 <= i < entries.len() {
                            (entries[i].0@, entries[i].1.view())
                        } else {
                            (Seq::empty(), ValueView::Null)
                        },
                ),
            ),
        }
    }
}

/// The content of each value in `items`.
pub open spec fn values_view(items: Seq<Value>) -> Seq<ValueView> {
    Seq::new(items.len(), |i: int| items[i]@)
}

/// The content of an array is the array of its items' contents.
pub proof fn lemma_array_view(items: Vec<Value>)
    ensures
        Value::Array(items)@ == ValueView::Array(values_view(items@)),
{
    reveal_with_fuel(<Value as View>::view, 2);
    assert(Value::Array(items)@->Array_0 =~= values_view(items@));
}

impl Value {
    /// The name of the value's kind.
    pub fn kind(&self) -> (name: &'static str)
        ensures
            name@ == self@.kind(),
    {
        match self {
            Value::Null => "null",
            Value::Bool(_) => "boolean",
            Value::Number(_) => "number",
            Value::String(_) => "string",
            Value::Array(_) => "array",
            Value::Object(_) => "object",
        }
    }

    /// The value that stands for an absent input.
    pub fn or_null(value: Option<Value>) -> (v: Value)
        ensures
            v@ == Value::spec_or_null(value),
    {
        match value {
            Some(v) => v,
            None => Value::Null,
        }
    }

    /// An absent input reads as `Null`.
    pub open spec fn spec_or_null(value: Option<Value>) -> ValueView {
        match value {
            Some(v) => v@,
            None => ValueView::Null,
        }
    }
}

} // verus!
