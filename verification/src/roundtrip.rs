use crate::encoder::{encode, encode_items, encode_pairs, error_text, nil_bytes, verbatim_content};
use crate::grammar::{
    after, all_digits, block_value, digits_value, error_of, false_text, first_space,
    is_aggregate_tag, is_block_tag, is_digit, is_line_tag, line_end_from, line_value, ok_text,
    parse_aggregate, parse_i64, parse_int, parse_items, parse_line, parse_pairs, parse_value,
    true_text, Parsed, ARRAY_TAG, ATTRIBUTE_TAG, BIG_NUMBER_TAG, BOOLEAN_TAG, BULK_TAG, DOUBLE_TAG,
    ERROR_TAG, INT_TAG, MAP_TAG, MINUS, PUSH_TAG, SET_TAG, SIMPLE_TAG, SPACE, VERBATIM_TAG,
};
use crate::value::ValueView;
use crate::wire::{block, crlf, decimal, header, line, signed_decimal, CR, LF};
use vstd::prelude::*;

verus! {

/// Whether a text holds no line terminator.
pub open spec fn single_line(text: Seq<u8>) -> bool {
    forall|i: int| 0 <= i && i + 1 < text.len() ==> !((#[trigger] text[i]) == CR && text[i + 1] == LF)
}

/// Whether a text holds no space.
pub open spec fn no_space(text: Seq<u8>) -> bool {
    forall|i: int| 0 <= i < text.len() ==> (#[trigger] text[i]) != SPACE
}

/// The first line terminator of a text that is followed by one lies at its end.
proof fn lemma_line_end(text: Seq<u8>, rest: Seq<u8>, from: nat)
    requires
        single_line(text),
        from <= text.len(),
    ensures
        line_end_from(text + crlf() + rest, from) == Some(text.len()),
    decreases text.len() - from,
{
    if from < text.len() {
        lemma_line_end(text, rest, from + 1);
    }
}

/// A line that is followed by more bytes is read back as its text, and the
/// bytes that follow are left.
proof fn lemma_line_frame(tag: u8, text: Seq<u8>, rest: Seq<u8>)
    requires
        single_line(text),
    ensures
        (line(tag, text) + rest).len() == text.len() + 3 + rest.len(),
        (line(tag, text) + rest)[0] == tag,
        parse_line((line(tag, text) + rest).skip(1)) == (Parsed::Complete {
            value: text,
            consumed: text.len() + 2,
        }),
        after(line(tag, text) + rest, text.len() + 3) == rest,
{
    let s = line(tag, text) + rest;
    assert(s.skip(1) =~= text + crlf() + rest);
    lemma_line_end(text, rest, 0);
    assert((text + crlf() + rest).take(text.len() as int) =~= text);
}

/// The decimal text of a number is made of digits and stands for the number.
proof fn lemma_decimal(n: nat)
    ensures
        decimal(n).len() >= 1,
        all_digits(decimal(n)),
        digits_value(decimal(n)) == n,
    decreases n,
{
    if n < 10 {
        assert(digits_value(decimal(n).drop_last()) == 0);
    } else {
        lemma_decimal(n / 10);
        let front = decimal(n / 10);
        let all = decimal(n);
        assert(all.drop_last() =~= front);
        assert forall|i: int| 0 <= i < all.len() implies is_digit(#[trigger] all[i]) by {
            if i < front.len() {
                assert(all[i] == front[i]);
            }
        }
    }
}

/// The decimal text of a signed integer is one line and stands for the integer.
proof fn lemma_signed_decimal(n: int)
    ensures
        single_line(signed_decimal(n)),
        parse_int(signed_decimal(n)) == Some(n),
{
    let text = signed_decimal(n);
    if n < 0 {
        let digits = decimal((-n) as nat);
        lemma_decimal((-n) as nat);
        assert(text.skip(1) =~= digits);
        assert forall|i: int| 0 <= i && i + 1 < text.len() implies !((#[trigger] text[i]) == CR
            && text[i + 1] == LF) by {
            if i >= 1 {
                assert(text[i] == digits[i - 1]);
                assert(is_digit(digits[i - 1]));
            }
        }
    } else {
        lemma_decimal(n as nat);
    }
}

/// A header that is followed by more bytes is read back as its count, and
/// the bytes that follow are left.
proof fn lemma_header_frame(tag: u8, n: nat, rest: Seq<u8>)
    requires
        n <= i64::MAX,
    ensures
        (header(tag, n) + rest).len() == header(tag, n).len() + rest.len(),
        header(tag, n).len() == decimal(n).len() + 3,
        (header(tag, n) + rest)[0] == tag,
        parse_line((header(tag, n) + rest).skip(1)) == (Parsed::Complete {
            value: decimal(n),
            consumed: decimal(n).len() + 2,
        }),
        parse_i64(decimal(n)) == Some(n as i64),
        after(header(tag, n) + rest, decimal(n).len() + 3) == rest,
{
    lemma_signed_decimal(n as int);
    lemma_line_frame(tag, decimal(n), rest);
}

/// The first space of a code that is followed by one lies at its end.
proof fn lemma_first_space(code: Seq<u8>, detail: Seq<u8>, from: nat)
    requires
        no_space(code),
        from <= code.len(),
    ensures
        first_space(code + seq![SPACE] + detail, from) == Some(code.len()),
    decreases code.len() - from,
{
    let s = code + seq![SPACE] + detail;
    if from < code.len() {
        assert(s[from as int] == code[from as int]);
        lemma_first_space(code, detail, from + 1);
    }
}

/// A text without a space has no first space.
proof fn lemma_no_first_space(code: Seq<u8>, from: nat)
    requires
        no_space(code),
    ensures
        first_space(code, from) is None,
    decreases code.len() - from,
{
    if from < code.len() {
        lemma_no_first_space(code, from + 1);
    }
}

/// The text of an error line is read back as its code and details.
proof fn lemma_error_text(code: Seq<u8>, detail: Option<Seq<u8>>)
    requires
        no_space(code),
    ensures
        error_of(error_text(code, detail)) == (ValueView::ServerError { code, detail }),
{
    match detail {
        Some(d) => {
            lemma_first_space(code, d, 0);
            let text = code + seq![SPACE] + d;
            assert(text.take(code.len() as int) =~= code);
            assert(text.skip(code.len() as int + 1) =~= d);
        },
        None => {
            lemma_no_first_space(code, 0);
        },
    }
}

/// Whether a value can go over the wire and come back as itself.
///
/// Text that is sent as a line must hold no line terminator; a simple string
/// must not be the text `OK`, which stands for the status of that name; the
/// code of a server error must hold no space; the format of a verbatim string
/// has three bytes; and every length and count fits in 64 bits with a sign.
pub open spec fn encodable(v: ValueView) -> bool
    decreases v,
{
    match v {
        ValueView::Nil => true,
        ValueView::Int(_) => true,
        ValueView::BulkString(bytes) => bytes.len() <= i64::MAX,
        ValueView::Array(items) => items.len() <= i64::MAX && forall|i: int|
            0 <= i < items.len() ==> encodable(#[trigger] items[i]),
        ValueView::SimpleString(text) => single_line(text) && text != ok_text(),
        ValueView::Okay => true,
        ValueView::ValueMap(pairs) => pairs.len() <= i64::MAX && forall|i: int|
            0 <= i < pairs.len() ==> encodable((#[trigger] pairs[i]).0) && encodable(pairs[i].1),
        ValueView::Attribute { data, attributes } => attributes.len() <= i64::MAX && (forall|
            i: int,
        |
            0 <= i < attributes.len() ==> encodable((#[trigger] attributes[i]).0) && encodable(
                attributes[i].1,
            )) && encodable(*data),
        ValueView::ValueSet(items) => items.len() <= i64::MAX && forall|i: int|
            0 <= i < items.len() ==> encodable(#[trigger] items[i]),
        ValueView::Double(text) => single_line(text),
        ValueView::Boolean(_) => true,
        ValueView::VerbatimString { format, text } => format.len() == 3 && text.len() + 4
            <= i64::MAX,
        ValueView::BigNumber(text) => single_line(text),
        ValueView::Push { kind, data } => single_line(kind) && data.len() + 1 <= i64::MAX
            && forall|i: int| 0 <= i < data.len() ==> encodable(#[trigger] data[i]),
        ValueView::ServerError { code, detail } => no_space(code) && single_line(
            error_text(code, detail),
        ),
    }
}

/// A frame of one line is read back as the value that its text stands for.
proof fn lemma_line_roundtrip(tag: u8, text: Seq<u8>, v: ValueView, rest: Seq<u8>)
    requires
        single_line(text),
        is_line_tag(tag),
        line_value(tag, text) == Some(v),
    ensures
        parse_value(line(tag, text) + rest) == (Parsed::Complete {
            value: v,
            consumed: line(tag, text).len(),
        }),
{
    lemma_line_frame(tag, text, rest);
}

/// A frame of a length and that many bytes is read back as the value that
/// the bytes stand for.
proof fn lemma_block_roundtrip(tag: u8, bytes: Seq<u8>, v: ValueView, rest: Seq<u8>)
    requires
        is_block_tag(tag),
        bytes.len() <= i64::MAX,
        block_value(tag, bytes) == Some(v),
    ensures
        parse_value(block(tag, bytes) + rest) == (Parsed::Complete {
            value: v,
            consumed: block(tag, bytes).len(),
        }),
{
    let tail = bytes + crlf() + rest;
    let s = block(tag, bytes) + rest;
    assert(s =~= header(tag, bytes.len()) + tail);
    lemma_header_frame(tag, bytes.len(), tail);
    assert(tail.take(bytes.len() as int) =~= bytes);
}

/// A frame of a count and nested frames is read back as what the nested
/// frames are read back as.
proof fn lemma_aggregate_frame(tag: u8, n: nat, tail: Seq<u8>, v: ValueView, taken: nat)
    requires
        is_aggregate_tag(tag),
        n <= i64::MAX,
        parse_aggregate(tag, tail, n) == (Parsed::Complete { value: v, consumed: taken }),
    ensures
        parse_value(header(tag, n) + tail) == (Parsed::Complete {
            value: v,
            consumed: header(tag, n).len() + taken,
        }),
{
    lemma_header_frame(tag, n, tail);
}

/// The frames of a sequence of values that can go over the wire are read
/// back as that sequence.
proof fn lemma_items_roundtrip(items: Seq<ValueView>, rest: Seq<u8>)
    requires
        forall|i: int| 0 <= i < items.len() ==> encodable(#[trigger] items[i]),
    ensures
        parse_items(encode_items(items) + rest, items.len()) == (Parsed::Complete {
            value: items,
            consumed: encode_items(items).len(),
        }),
    decreases items,
{
    if items.len() == 0 {
        assert(items =~= Seq::<ValueView>::empty());
    } else {
        let tail = items.skip(1);
        let s = encode_items(items) + rest;
        let after_first = encode_items(tail) + rest;
        assert(s =~= encode(items[0]) + after_first);
        decode_inverts_encode(items[0], after_first);
        assert(after(s, encode(items[0]).len()) =~= after_first);
        assert forall|i: int| 0 <= i < tail.len() implies encodable(#[trigger] tail[i]) by {
            assert(tail[i] == items[i + 1]);
        }
        lemma_items_roundtrip(tail, rest);
        assert(seq![items[0]] + tail =~= items);
    }
}

/// The frames of a sequence of pairs of values that can go over the wire are
/// read back as that sequence.
proof fn lemma_pairs_roundtrip(pairs: Seq<(ValueView, ValueView)>, rest: Seq<u8>)
    requires
        forall|i: int|
            0 <= i < pairs.len() ==> encodable((#[trigger] pairs[i]).0) && encodable(pairs[i].1),
    ensures
        parse_pairs(encode_pairs(pairs) + rest, pairs.len()) == (Parsed::Complete {
            value: pairs,
            consumed: encode_pairs(pairs).len(),
        }),
    decreases pairs,
{
    if pairs.len() == 0 {
        assert(pairs =~= Seq::<(ValueView, ValueView)>::empty());
    } else {
        let tail = pairs.skip(1);
        let s = encode_pairs(pairs) + rest;
        let key = pairs[0].0;
        let value = pairs[0].1;
        let after_pair = encode_pairs(tail) + rest;
        let after_key = encode(value) + after_pair;
        assert(s =~= encode(key) + after_key);
        decode_inverts_encode(key, after_key);
        assert(after(s, encode(key).len()) =~= after_key);
        decode_inverts_encode(value, after_pair);
        assert(after(after_key, encode(value).len()) =~= after_pair);
        assert forall|i: int| 0 <= i < tail.len() implies encodable((#[trigger] tail[i]).0)
            && encodable(tail[i].1) by {
            assert(tail[i] == pairs[i + 1]);
        }
        lemma_pairs_roundtrip(tail, rest);
        assert(seq![(key, value)] + tail =~= pairs);
    }
}

/// The wire form of the absence of a value is read back as such.
proof fn lemma_nil_roundtrip(rest: Seq<u8>)
    ensures
        parse_value(encode(ValueView::Nil) + rest) == (Parsed::Complete {
            value: ValueView::Nil,
            consumed: encode(ValueView::Nil).len(),
        }),
{
    let text = seq![MINUS, 49u8];
    assert(nil_bytes() =~= line(BULK_TAG, text));
    lemma_line_frame(BULK_TAG, text, rest);
    assert(text.skip(1) =~= seq![49u8]);
    assert(digits_value(seq![49u8]) == 1) by {
        reveal_with_fuel(digits_value, 2);
    }
}

/// The wire form of a value that is sent as one line is read back as that value.
proof fn lemma_scalar_roundtrip(v: ValueView, rest: Seq<u8>)
    requires
        encodable(v),
        v is Int || v is SimpleString || v is Okay || v is Double || v is Boolean || v
            is BigNumber || v is ServerError,
    ensures
        parse_value(encode(v) + rest) == (Parsed::Complete {
            value: v,
            consumed: encode(v).len(),
        }),
{
    match v {
        ValueView::Int(n) => {
            lemma_signed_decimal(n as int);
            lemma_line_roundtrip(INT_TAG, signed_decimal(n as int), v, rest);
        },
        ValueView::SimpleString(text) => {
            lemma_line_roundtrip(SIMPLE_TAG, text, v, rest);
        },
        ValueView::Okay => {
            lemma_line_roundtrip(SIMPLE_TAG, ok_text(), v, rest);
        },
        ValueView::Double(text) => {
            lemma_line_roundtrip(DOUBLE_TAG, text, v, rest);
        },
        ValueView::Boolean(b) => {
            let text = if b {
                true_text()
            } else {
                false_text()
            };
            lemma_line_roundtrip(BOOLEAN_TAG, text, v, rest);
        },
        ValueView::BigNumber(text) => {
            lemma_line_roundtrip(BIG_NUMBER_TAG, text, v, rest);
        },
        ValueView::ServerError { code, detail } => {
            lemma_error_text(code, detail);
            lemma_line_roundtrip(ERROR_TAG, error_text(code, detail), v, rest);
        },
        _ => {},
    }
}

/// The wire form of a byte string or of a verbatim string is read back as
/// that value.
proof fn lemma_string_roundtrip(v: ValueView, rest: Seq<u8>)
    requires
        encodable(v),
        v is BulkString || v is VerbatimString,
    ensures
        parse_value(encode(v) + rest) == (Parsed::Complete {
            value: v,
            consumed: encode(v).len(),
        }),
{
    match v {
        ValueView::BulkString(bytes) => {
            lemma_block_roundtrip(BULK_TAG, bytes, v, rest);
        },
        ValueView::VerbatimString { format, text } => {
            let content = verbatim_content(format, text);
            assert(content.take(3) =~= format);
            assert(content.skip(4) =~= text);
            lemma_block_roundtrip(VERBATIM_TAG, content, v, rest);
        },
        _ => {},
    }
}

/// The wire form of an array or of a set is read back as that value, given
/// that its items are read back as themselves.
proof fn lemma_sequence_roundtrip(v: ValueView, items: Seq<ValueView>, rest: Seq<u8>)
    requires
        v == ValueView::Array(items) || v == ValueView::ValueSet(items),
        items.len() <= i64::MAX,
        parse_items(encode_items(items) + rest, items.len()) == (Parsed::Complete {
            value: items,
            consumed: encode_items(items).len(),
        }),
    ensures
        parse_value(encode(v) + rest) == (Parsed::Complete {
            value: v,
            consumed: encode(v).len(),
        }),
{
    let tag = if v is Array {
        ARRAY_TAG
    } else {
        SET_TAG
    };
    let tail = encode_items(items) + rest;
    assert(encode(v) + rest =~= header(tag, items.len()) + tail);
    lemma_aggregate_frame(tag, items.len(), tail, v, encode_items(items).len());
}

/// The wire form of a map is read back as that map, given that its pairs are
/// read back as themselves.
proof fn lemma_map_roundtrip(pairs: Seq<(ValueView, ValueView)>, rest: Seq<u8>)
    requires
        pairs.len() <= i64::MAX,
        parse_pairs(encode_pairs(pairs) + rest, pairs.len()) == (Parsed::Complete {
            value: pairs,
            consumed: encode_pairs(pairs).len(),
        }),
    ensures
        parse_value(encode(ValueView::ValueMap(pairs)) + rest) == (Parsed::Complete {
            value: ValueView::ValueMap(pairs),
            consumed: encode(ValueView::ValueMap(pairs)).len(),
        }),
{
    let v = ValueView::ValueMap(pairs);
    let tail = encode_pairs(pairs) + rest;
    assert(encode(v) + rest =~= header(MAP_TAG, pairs.len()) + tail);
    lemma_aggregate_frame(MAP_TAG, pairs.len(), tail, v, encode_pairs(pairs).len());
}

/// The wire form of an annotated value is read back as that value, given
/// that its attributes and the value itself are read back as themselves.
proof fn lemma_attribute_roundtrip(
    data: ValueView,
    attributes: Seq<(ValueView, ValueView)>,
    rest: Seq<u8>,
)
    requires
        attributes.len() <= i64::MAX,
        parse_pairs(encode_pairs(attributes) + (encode(data) + rest), attributes.len()) == (
        Parsed::Complete { value: attributes, consumed: encode_pairs(attributes).len() }),
        parse_value(encode(data) + rest) == (Parsed::Complete {
            value: data,
            consumed: encode(data).len(),
        }),
    ensures
        parse_value(encode(ValueView::Attribute { data: Box::new(data), attributes }) + rest) == (
        Parsed::Complete {
            value: ValueView::Attribute { data: Box::new(data), attributes },
            consumed: encode(ValueView::Attribute { data: Box::new(data), attributes }).len(),
        }),
{
    let v = ValueView::Attribute { data: Box::new(data), attributes };
    let after_attributes = encode(data) + rest;
    let tail = encode_pairs(attributes) + after_attributes;
    assert(after(tail, encode_pairs(attributes).len()) =~= after_attributes);
    assert(encode(v) + rest =~= header(ATTRIBUTE_TAG, attributes.len()) + tail);
    lemma_aggregate_frame(
        ATTRIBUTE_TAG,
        attributes.len(),
        tail,
        v,
        encode_pairs(attributes).len() + encode(data).len(),
    );
}

/// The wire form of a push frame is read back as that frame, given that its
/// payload is read back as itself.
proof fn lemma_push_roundtrip(kind: Seq<u8>, data: Seq<ValueView>, rest: Seq<u8>)
    requires
        single_line(kind),
        data.len() + 1 <= i64::MAX,
        parse_items(encode_items(data) + rest, data.len()) == (Parsed::Complete {
            value: data,
            consumed: encode_items(data).len(),
        }),
    ensures
        parse_value(encode(ValueView::Push { kind, data }) + rest) == (Parsed::Complete {
            value: ValueView::Push { kind, data },
            consumed: encode(ValueView::Push { kind, data }).len(),
        }),
{
    let v = ValueView::Push { kind, data };
    let after_kind = encode_items(data) + rest;
    let tail = line(SIMPLE_TAG, kind) + after_kind;
    lemma_line_frame(SIMPLE_TAG, kind, after_kind);
    assert(encode(v) + rest =~= header(PUSH_TAG, data.len() + 1) + tail);
    lemma_aggregate_frame(
        PUSH_TAG,
        data.len() + 1,
        tail,
        v,
        line(SIMPLE_TAG, kind).len() + encode_items(data).len(),
    );
}

/// Decoding undoes encoding.
///
/// The wire form of a value that can go over the wire, followed by any
/// bytes, is read back as that value; exactly the bytes of the wire form are
/// taken, so that reading can go on with what follows.
pub proof fn decode_inverts_encode(v: ValueView, rest: Seq<u8>)
    requires
        encodable(v),
    ensures
        parse_value(encode(v) + rest) == (Parsed::Complete {
            value: v,
            consumed: encode(v).len(),
        }),
    decreases v,
{
    match v {
        ValueView::Nil => {
            lemma_nil_roundtrip(rest);
        },
        ValueView::BulkString(_) => {
            lemma_string_roundtrip(v, rest);
        },
        ValueView::VerbatimString { format, text } => {
            lemma_string_roundtrip(v, rest);
        },
        ValueView::Array(items) => {
            lemma_items_roundtrip(items, rest);
            lemma_sequence_roundtrip(v, items, rest);
        },
        ValueView::ValueSet(items) => {
            lemma_items_roundtrip(items, rest);
            lemma_sequence_roundtrip(v, items, rest);
        },
        ValueView::ValueMap(pairs) => {
            lemma_pairs_roundtrip(pairs, rest);
            lemma_map_roundtrip(pairs, rest);
        },
        ValueView::Attribute { data, attributes } => {
            lemma_pairs_roundtrip(attributes, encode(*data) + rest);
            decode_inverts_encode(*data, rest);
            lemma_attribute_roundtrip(*data, attributes, rest);
        },
        ValueView::Push { kind, data } => {
            lemma_items_roundtrip(data, rest);
            lemma_push_roundtrip(kind, data, rest);
        },
        _ => {
            lemma_scalar_roundtrip(v, rest);
        },
    }
}

} // verus!
