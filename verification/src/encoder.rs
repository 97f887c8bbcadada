use crate::grammar::{
    false_text, ok_text, true_text, ARRAY_TAG, ATTRIBUTE_TAG, BIG_NUMBER_TAG, BOOLEAN_TAG, BULK_TAG,
    COLON, DOUBLE_TAG, ERROR_TAG, INT_TAG, MAP_TAG, MINUS, PUSH_TAG, SET_TAG, SIMPLE_TAG, SPACE,
    VERBATIM_TAG,
};
use crate::value::{view_items, view_pairs, Value, ValueView};
use crate::wire::{
    block, crlf, header, line, signed_decimal, write_block, write_bytes, write_crlf, write_header,
    write_line, write_signed_decimal,
};
use vstd::prelude::*;

verus! {

/// The wire form of the absence of a value: a bulk string of length minus one.
pub open spec fn nil_bytes() -> Seq<u8> {
    seq![BULK_TAG, MINUS, 49u8] + crlf()
}

/// The text of an error line: the code and, after a space, the details if there are any.
pub open spec fn error_text(code: Seq<u8>, detail: Option<Seq<u8>>) -> Seq<u8> {
    match detail {
        Some(d) => code + seq![SPACE] + d,
        None => code,
    }
}

/// The content of a verbatim string: the format, a colon, and the text.
pub open spec fn verbatim_content(format: Seq<u8>, text: Seq<u8>) -> Seq<u8> {
    format + seq![COLON] + text
}

/// The wire form of a value.
pub open spec fn encode(v: ValueView) -> Seq<u8>
    decreases v,
{
    match v {
        ValueView::Nil => nil_bytes(),
        ValueView::Int(n) => line(INT_TAG, signed_decimal(n as int)),
        ValueView::BulkString(bytes) => block(BULK_TAG, bytes),
        ValueView::Array(items) => header(ARRAY_TAG, items.len()) + encode_items(items),
        ValueView::SimpleString(text) => line(SIMPLE_TAG, text),
        ValueView::Okay => line(SIMPLE_TAG, ok_text()),
        ValueView::ValueMap(pairs) => header(MAP_TAG, pairs.len()) + encode_pairs(pairs),
        ValueView::Attribute { data, attributes } => header(ATTRIBUTE_TAG, attributes.len())
            + encode_pairs(attributes) + encode(*data),
        ValueView::ValueSet(items) => header(SET_TAG, items.len()) + encode_items(items),
        ValueView::Double(text) => line(DOUBLE_TAG, text),
        ValueView::Boolean(b) => line(
            BOOLEAN_TAG,
            if b {
                true_text()
            } else {
                false_text()
            },
        ),
        ValueView::VerbatimString { format, text } => block(
            VERBATIM_TAG,
            verbatim_content(format, text),
        ),
        ValueView::BigNumber(text) => line(BIG_NUMBER_TAG, text),
        ValueView::Push { kind, data } => header(PUSH_TAG, data.len() + 1) + line(SIMPLE_TAG, kind)
            + encode_items(data),
        ValueView::ServerError { code, detail } => line(ERROR_TAG, error_text(code, detail)),
    }
}

/// The wire forms of the values of a sequence, one after another.
pub open spec fn encode_items(items: Seq<ValueView>) -> Seq<u8>
    decreases items,
{
    if items.len() == 0 {
        Seq::empty()
    } else {
        encode(items[0]) + encode_items(items.skip(1))
    }
}

/// The wire forms of the keys and values of a sequence of pairs, one after another.
pub open spec fn encode_pairs(pairs: Seq<(ValueView, ValueView)>) -> Seq<u8>
    decreases pairs,
{
    if pairs.len() == 0 {
        Seq::empty()
    } else {
        encode(pairs[0].0) + encode(pairs[0].1) + encode_pairs(pairs.skip(1))
    }
}

/// The wire form of a sequence is the wire form of its front part followed by
/// that of the rest.
pub proof fn lemma_encode_items_concat(a: Seq<ValueView>, b: Seq<ValueView>)
    ensures
        encode_items(a + b) == encode_items(a) + encode_items(b),
    decreases a.len(),
{
    if a.len() > 0 {
        assert((a + b).skip(1) =~= a.skip(1) + b);
        lemma_encode_items_concat(a.skip(1), b);
    }
}

/// The wire form of a sequence of pairs is the wire form of its front part
/// followed by that of the rest.
pub proof fn lemma_encode_pairs_concat(
    a: Seq<(ValueView, ValueView)>,
    b: Seq<(ValueView, ValueView)>,
)
    ensures
        encode_pairs(a + b) == encode_pairs(a) + encode_pairs(b),
    decreases a.len(),
{
    if a.len() > 0 {
        assert((a + b).skip(1) =~= a.skip(1) + b);
        lemma_encode_pairs_concat(a.skip(1), b);
    }
}

/// Appends the wire forms of the values of `items`, in order, to `out`.
fn write_items(items: &Vec<Value>, out: &mut Vec<u8>)
    ensures
        final(out)@ == old(out)@ + encode_items(view_items(items@)),
    decreases items,
{
    let ghost all = view_items(items@);
    let mut i: usize = 0;
    while i < items.len()
        invariant
            i <= items@.len(),
            all == view_items(items@),
            all.len() == items@.len(),
            out@ == old(out)@ + encode_items(all.take(i as int)),
        decreases items@.len() - i,
    {
        write_value(&items[i], out);
        proof {
            assert(all.take(i + 1) =~= all.take(i as int) + seq![all[i as int]]);
            lemma_encode_items_concat(all.take(i as int), seq![all[i as int]]);
            assert(encode_items(seq![all[i as int]].skip(1)) =~= Seq::<u8>::empty());
        }
        i = i + 1;
    }
    assert(all.take(i as int) =~= all);
}

/// Appends the wire forms of the keys and values of `pairs`, in order, to `out`.
fn write_pairs(pairs: &Vec<(Value, Value)>, out: &mut Vec<u8>)
    ensures
        final(out)@ == old(out)@ + encode_pairs(view_pairs(pairs@)),
    decreases pairs,
{
    let ghost all = view_pairs(pairs@);
    let mut i: usize = 0;
    while i < pairs.len()
        invariant
            i <= pairs@.len(),
            all == view_pairs(pairs@),
            all.len() == pairs@.len(),
            out@ == old(out)@ + encode_pairs(all.take(i as int)),
        decreases pairs@.len() - i,
    {
        write_value(&pairs[i].0, out);
        write_value(&pairs[i].1, out);
        proof {
            assert(all.take(i + 1) =~= all.take(i as int) + seq![all[i as int]]);
            lemma_encode_pairs_concat(all.take(i as int), seq![all[i as int]]);
            assert(encode_pairs(seq![all[i as int]].skip(1)) =~= Seq::<u8>::empty());
        }
        i = i + 1;
    }
    assert(all.take(i as int) =~= all);
}

/// Appends the wire form of `v` to `out`.
pub fn write_value(v: &Value, out: &mut Vec<u8>)
    ensures
        final(out)@ == old(out)@ + encode(v@),
    decreases v,
{
    match v {
        Value::Nil => {
            out.push(BULK_TAG);
            out.push(MINUS);
            out.push(49);  // "1"
            write_crlf(out);
        },
        Value::Int(n) => {
            out.push(INT_TAG);
            write_signed_decimal(*n, out);
            write_crlf(out);
        },
        Value::BulkString(bytes) => {
            write_block(BULK_TAG, bytes.as_slice(), out);
        },
        Value::Array(items) => {
            write_header(ARRAY_TAG, items.len() as u128, out);
            write_items(items, out);
        },
        Value::SimpleString(text) => {
            write_line(SIMPLE_TAG, text.as_slice(), out);
        },
        Value::Okay => {
            let ok: [u8; 2] = [79, 75];  // "OK"
            write_line(SIMPLE_TAG, ok.as_slice(), out);
        },
        Value::ValueMap(pairs) => {
            write_header(MAP_TAG, pairs.len() as u128, out);
            write_pairs(pairs, out);
        },
        Value::Attribute { data, attributes } => {
            write_header(ATTRIBUTE_TAG, attributes.len() as u128, out);
            write_pairs(attributes, out);
            write_value(data, out);
        },
        Value::ValueSet(items) => {
            write_header(SET_TAG, items.len() as u128, out);
            write_items(items, out);
        },
        Value::Double(text) => {
            write_line(DOUBLE_TAG, text.as_slice(), out);
        },
        Value::Boolean(b) => {
            // "t" or "f"
            let text: [u8; 1] = if *b {
                [116]
            } else {
                [102]
            };
            write_line(BOOLEAN_TAG, text.as_slice(), out);
        },
        Value::VerbatimString { format, text } => {
            let mut content: Vec<u8> = Vec::new();
            write_bytes(format.as_slice(), &mut content);
            content.push(COLON);
            write_bytes(text.as_slice(), &mut content);
            write_block(VERBATIM_TAG, content.as_slice(), out);
        },
        Value::BigNumber(text) => {
            write_line(BIG_NUMBER_TAG, text.as_slice(), out);
        },
        Value::Push { kind, data } => {
            write_header(PUSH_TAG, data.len() as u128 + 1, out);
            write_line(SIMPLE_TAG, kind.as_slice(), out);
            write_items(data, out);
        },
        Value::ServerError(err) => {
            out.push(ERROR_TAG);
            write_bytes(err.code.as_slice(), out);
            match &err.detail {
                Some(detail) => {
                    out.push(SPACE);
                    write_bytes(detail.as_slice(), out);
                },
                None => {},
            }
            write_crlf(out);
        },
    }
}

/// The wire form of `v`.
pub fn encode_value(v: &Value) -> (out: Vec<u8>)
    ensures
        out@ == encode(v@),
{
    let mut out: Vec<u8> = Vec::new();
    write_value(v, &mut out);
    out
}

} // verus!
