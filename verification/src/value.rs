use crate::types::{clone_bytes, clone_opt_bytes, opt_bytes, ServerError};
use vstd::prelude::*;

verus! {

/// One decoded reply.
#[allow(inconsistent_fields)]
#[derive(Debug, PartialEq, Eq)]
pub enum Value {
    /// The absence of a value.
    Nil,
    /// A signed 64-bit integer.
    Int(i64),
    /// A length-prefixed byte string.
    BulkString(Vec<u8>),
    /// An ordered sequence of values.
    Array(Vec<Value>),
    /// A status line other than `OK`.
    SimpleString(Vec<u8>),
    /// The status line `OK`.
    Okay,
    /// Key and value pairs in the order they arrived; keys may repeat.
    ValueMap(Vec<(Value, Value)>),
    /// A value annotated with out-of-band attributes.
    Attribute { data: Box<Value>, attributes: Vec<(Value, Value)> },
    /// The members of a set in the order they arrived.
    ValueSet(Vec<Value>),
    /// A floating-point number, kept as the text that was on the wire.
    Double(Vec<u8>),
    /// A boolean.
    Boolean(bool),
    /// A string tagged with a three-byte format.
    VerbatimString { format: Vec<u8>, text: Vec<u8> },
    /// An arbitrary-precision number, kept as text.
    BigNumber(Vec<u8>),
    /// An out-of-band notification: its kind and its payload.
    Push { kind: Vec<u8>, data: Vec<Value> },
    /// An error reported by the peer.
    ServerError(ServerError),
}

/// The mathematical content of a [`Value`].
#[allow(inconsistent_fields)]
pub enum ValueView {
    Nil,
    Int(i64),
    BulkString(Seq<u8>),
    Array(Seq<ValueView>),
    SimpleString(Seq<u8>),
    Okay,
    ValueMap(Seq<(ValueView, ValueView)>),
    Attribute { data: Box<ValueView>, attributes: Seq<(ValueView, ValueView)> },
    ValueSet(Seq<ValueView>),
    Double(Seq<u8>),
    Boolean(bool),
    VerbatimString { format: Seq<u8>, text: Seq<u8> },
    BigNumber(Seq<u8>),
    Push { kind: Seq<u8>, data: Seq<ValueView> },
    ServerError { code: Seq<u8>, detail: Option<Seq<u8>> },
}

/// The contents of a sequence of values, item by item.
pub open spec fn view_items(items: Seq<Value>) -> Seq<ValueView>
    decreases items,
{
    Seq::new(
        items.len(),
        |i: int|
            if 0 <= i < items.len() {
                view_value(items[i])
            } else {
                ValueView::Nil
            },
    )
}

/// The contents of a sequence of pairs of values, pair by pair.
pub open spec fn view_pairs(pairs: Seq<(Value, Value)>) -> Seq<(ValueView, ValueView)>
    decreases pairs,
{
    Seq::new(
        pairs.len(),
        |i: int|
            if 0 <= i < pairs.len() {
                (view_value(pairs[i].0), view_value(pairs[i].1))
            } else {
                (ValueView::Nil, ValueView::Nil)
            },
    )
}

/// The content of one value.
pub open spec fn view_value(v: Value) -> ValueView
    decreases v,
{
    match v {
        Value::Nil => ValueView::Nil,
        Value::Int(n) => ValueView::Int(n),
        Value::BulkString(b) => ValueView::BulkString(b@),
        Value::Array(items) => ValueView::Array(view_items(items@)),
        Value::SimpleString(s) => ValueView::SimpleString(s@),
        Value::Okay => ValueView::Okay,
        Value::ValueMap(pairs) => ValueView::ValueMap(view_pairs(pairs@)),
        Value::Attribute { data, attributes } => ValueView::Attribute {
            data: Box::new(view_value(*data)),
            attributes: view_pairs(attributes@),
        },
        Value::ValueSet(items) => ValueView::ValueSet(view_items(items@)),
        Value::Double(text) => ValueView::Double(text@),
        Value::Boolean(b) => ValueView::Boolean(b),
        Value::VerbatimString { format, text } => ValueView::VerbatimString {
            format: format@,
            text: text@,
        },
        Value::BigNumber(text) => ValueView::BigNumber(text@),
        Value::Push { kind, data } => ValueView::Push { kind: kind@, data: view_items(data@) },
        Value::ServerError(e) => ValueView::ServerError {
            code: e.code@,
            detail: opt_bytes(e.detail),
        },
    }
}

/// The contents of a sequence of values are the contents of its items, in order.
pub proof fn lemma_view_items(items: Seq<Value>)
    ensures
        view_items(items).len() == items.len(),
        forall|i: int| 0 <= i < items.len() ==> (#[trigger] view_items(items)[i]) == items[i]@,
{
}

/// The contents of a sequence of pairs are the contents of its pairs, in order.
pub proof fn lemma_view_pairs(pairs: Seq<(Value, Value)>)
    ensures
        view_pairs(pairs).len() == pairs.len(),
        forall|i: int|
            0 <= i < pairs.len() ==> (#[trigger] view_pairs(pairs)[i]) == (pairs[i].0@, pairs[i].1@),
{
}

impl View for Value {
    type V = ValueView;

    open spec fn view(&self) -> ValueView {
        view_value(*self)
    }
}

impl Value {
    /// Whether this value is an out-of-band push frame.
    pub fn is_push(&self) -> (r: bool)
        ensures
            r == (self@ is Push),
    {
        match self {
            Value::Push { .. } => true,
            _ => false,
        }
    }
}

/// Copies of the values of `items`, in order.
fn clone_items(items: &Vec<Value>) -> (copy: Vec<Value>)
    ensures
        view_items(copy@) == view_items(items@),
    decreases items,
{
    let mut copy: Vec<Value> = Vec::new();
    let mut i: usize = 0;
    while i < items.len()
        invariant
            i <= items@.len(),
            copy@.len() == i,
            forall|j: int| 0 <= j < i ==> (#[trigger] copy@[j])@ == items@[j]@,
        decreases items@.len() - i,
    {
        let item = (&items[i]).clone();
        copy.push(item);
        i = i + 1;
    }
    copy
}

/// Copies of the pairs of `pairs`, in order.
fn clone_pairs(pairs: &Vec<(Value, Value)>) -> (copy: Vec<(Value, Value)>)
    ensures
        view_pairs(copy@) == view_pairs(pairs@),
    decreases pairs,
{
    let mut copy: Vec<(Value, Value)> = Vec::new();
    let mut i: usize = 0;
    while i < pairs.len()
        invariant
            i <= pairs@.len(),
            copy@.len() == i,
            forall|j: int|
                0 <= j < i ==> (#[trigger] copy@[j]).0@ == pairs@[j].0@ && copy@[j].1@
                    == pairs@[j].1@,
        decreases pairs@.len() - i,
    {
        let key = (&pairs[i].0).clone();
        let value = (&pairs[i].1).clone();
        copy.push((key, value));
        i = i + 1;
    }
    copy
}

impl Clone for Value {
    /// A copy that holds what this value holds.
    fn clone(&self) -> (copy: Self)
        ensures
            copy@ == self@,
        decreases self,
    {
        match self {
            Value::Nil => Value::Nil,
            Value::Int(n) => Value::Int(*n),
            Value::BulkString(bytes) => Value::BulkString(clone_bytes(bytes)),
            Value::Array(items) => Value::Array(clone_items(items)),
            Value::SimpleString(text) => Value::SimpleString(clone_bytes(text)),
            Value::Okay => Value::Okay,
            Value::ValueMap(pairs) => Value::ValueMap(clone_pairs(pairs)),
            Value::Attribute { data, attributes } => Value::Attribute {
                data: Box::new((&**data).clone()),
                attributes: clone_pairs(attributes),
            },
            Value::ValueSet(items) => Value::ValueSet(clone_items(items)),
            Value::Double(text) => Value::Double(clone_bytes(text)),
            Value::Boolean(b) => Value::Boolean(*b),
            Value::VerbatimString { format, text } => Value::VerbatimString {
                format: clone_bytes(format),
                text: clone_bytes(text),
            },
            Value::BigNumber(text) => Value::BigNumber(clone_bytes(text)),
            Value::Push { kind, data } => Value::Push {
                kind: clone_bytes(kind),
                data: clone_items(data),
            },
            Value::ServerError(e) => Value::ServerError(
                ServerError { code: clone_bytes(&e.code), detail: clone_opt_bytes(&e.detail) },
            ),
        }
    }
}

} // verus!
