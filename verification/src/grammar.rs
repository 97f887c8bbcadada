use crate::value::ValueView;
use crate::wire::{CR, LF};
use vstd::prelude::*;

verus! {

/// The type byte of a simple string: `+`.
pub const SIMPLE_TAG: u8 = 43;

/// The type byte of a server error: `-`.
pub const ERROR_TAG: u8 = 45;

/// The type byte of an integer: `:`.
pub const INT_TAG: u8 = 58;

/// The type byte of a bulk string: `$`.
pub const BULK_TAG: u8 = 36;

/// The type byte of an array: `*`.
pub const ARRAY_TAG: u8 = 42;

/// The type byte of a map: `%`.
pub const MAP_TAG: u8 = 37;

/// The type byte of an attribute: `|`.
pub const ATTRIBUTE_TAG: u8 = 124;

/// The type byte of a set: `~`.
pub const SET_TAG: u8 = 126;

/// The type byte of a double: `,`.
pub const DOUBLE_TAG: u8 = 44;

/// The type byte of a boolean: `#`.
pub const BOOLEAN_TAG: u8 = 35;

/// The type byte of a verbatim string: `=`.
pub const VERBATIM_TAG: u8 = 61;

/// The type byte of a big number: `(`.
pub const BIG_NUMBER_TAG: u8 = 40;

/// The type byte of a push frame: `>`.
pub const PUSH_TAG: u8 = 62;

/// The minus sign.
pub const MINUS: u8 = 45;

/// The space between the code of an error and its details.
pub const SPACE: u8 = 32;

/// The colon between the format of a verbatim string and its text.
pub const COLON: u8 = 58;

/// The text of the status `OK`.
pub open spec fn ok_text() -> Seq<u8> {
    seq![79u8, 75u8]
}

/// The text of the boolean `true`: `t`.
pub open spec fn true_text() -> Seq<u8> {
    seq![116u8]
}

/// The text of the boolean `false`: `f`.
pub open spec fn false_text() -> Seq<u8> {
    seq![102u8]
}

/// What reading a frame from the front of some bytes yields.
pub enum Parsed<T> {
    /// The bytes end before the frame does.
    Incomplete,
    /// The bytes cannot be the start of any frame.
    Invalid,
    /// A whole frame: what it holds, and how many bytes it takes.
    Complete { value: T, consumed: nat },
}

/// The bytes of `s` after the first `n`.
pub open spec fn after(s: Seq<u8>, n: nat) -> Seq<u8> {
    if n <= s.len() {
        s.skip(n as int)
    } else {
        Seq::empty()
    }
}

/// The position of the first line terminator of `s` at or after `from`.
pub open spec fn line_end_from(s: Seq<u8>, from: nat) -> Option<nat>
    decreases s.len() - from,
{
    if from + 2 > s.len() {
        None
    } else if s[from as int] == CR && s[from as int + 1] == LF {
        Some(from)
    } else {
        line_end_from(s, from + 1)
    }
}

/// The first line of `s`: the text before the first line terminator. The
/// terminator counts as taken.
pub open spec fn parse_line(s: Seq<u8>) -> Parsed<Seq<u8>> {
    match line_end_from(s, 0) {
        Some(end) => Parsed::Complete { value: s.take(end as int), consumed: end + 2 },
        None => Parsed::Incomplete,
    }
}

/// Whether a byte is an ASCII digit.
pub open spec fn is_digit(b: u8) -> bool {
    48 <= b <= 57
}

/// Whether a text is made of ASCII digits only.
pub open spec fn all_digits(text: Seq<u8>) -> bool {
    forall|i: int| 0 <= i < text.len() ==> is_digit(#[trigger] text[i])
}

/// The number that a text of digits stands for.
pub open spec fn digits_value(text: Seq<u8>) -> nat
    decreases text.len(),
{
    if text.len() == 0 {
        0
    } else {
        (digits_value(text.drop_last()) * 10 + (text.last() - 48)) as nat
    }
}

/// The integer that a text stands for: digits, or a minus sign and digits.
pub open spec fn parse_int(text: Seq<u8>) -> Option<int> {
    if text.len() > 0 && text[0] == MINUS {
        if text.len() > 1 && all_digits(text.skip(1)) {
            Some(-(digits_value(text.skip(1)) as int))
        } else {
            None
        }
    } else if text.len() > 0 && all_digits(text) {
        Some(digits_value(text) as int)
    } else {
        None
    }
}

/// The integer that a text stands for, if it fits in 64 bits with a sign.
pub open spec fn parse_i64(text: Seq<u8>) -> Option<i64> {
    match parse_int(text) {
        Some(n) => if i64::MIN <= n <= i64::MAX {
            Some(n as i64)
        } else {
            None
        },
        None => None,
    }
}

/// The position of the first space in a text.
pub open spec fn first_space(text: Seq<u8>, from: nat) -> Option<nat>
    decreases text.len() - from,
{
    if from >= text.len() {
        None
    } else if text[from as int] == SPACE {
        Some(from)
    } else {
        first_space(text, from + 1)
    }
}

/// The server error that a line stands for: the code up to the first space,
/// and the details after it if there is one.
pub open spec fn error_of(text: Seq<u8>) -> ValueView {
    match first_space(text, 0) {
        Some(at) => ValueView::ServerError {
            code: text.take(at as int),
            detail: Some(text.skip(at as int + 1)),
        },
        None => ValueView::ServerError { code: text, detail: None },
    }
}

/// The value that a line with the given type byte stands for.
pub open spec fn line_value(tag: u8, text: Seq<u8>) -> Option<ValueView> {
    if tag == SIMPLE_TAG {
        if text == ok_text() {
            Some(ValueView::Okay)
        } else {
            Some(ValueView::SimpleString(text))
        }
    } else if tag == ERROR_TAG {
        Some(error_of(text))
    } else if tag == INT_TAG {
        match parse_i64(text) {
            Some(n) => Some(ValueView::Int(n)),
            None => None,
        }
    } else if tag == DOUBLE_TAG {
        Some(ValueView::Double(text))
    } else if tag == BIG_NUMBER_TAG {
        Some(ValueView::BigNumber(text))
    } else if tag == BOOLEAN_TAG {
        if text == true_text() {
            Some(ValueView::Boolean(true))
        } else if text == false_text() {
            Some(ValueView::Boolean(false))
        } else {
            None
        }
    } else {
        None
    }
}

/// Whether frames with this type byte are a single line.
pub open spec fn is_line_tag(tag: u8) -> bool {
    tag == SIMPLE_TAG || tag == ERROR_TAG || tag == INT_TAG || tag == DOUBLE_TAG || tag
        == BIG_NUMBER_TAG || tag == BOOLEAN_TAG
}

/// Whether frames with this type byte are a length and that many bytes.
pub open spec fn is_block_tag(tag: u8) -> bool {
    tag == BULK_TAG || tag == VERBATIM_TAG
}

/// Whether frames with this type byte are a count and that many nested frames.
pub open spec fn is_aggregate_tag(tag: u8) -> bool {
    tag == ARRAY_TAG || tag == SET_TAG || tag == MAP_TAG || tag == ATTRIBUTE_TAG || tag
        == PUSH_TAG
}

/// The value that a block of bytes with the given type byte stands for.
pub open spec fn block_value(tag: u8, bytes: Seq<u8>) -> Option<ValueView> {
    if tag == BULK_TAG {
        Some(ValueView::BulkString(bytes))
    } else if bytes.len() >= 4 && bytes[3] == COLON {
        Some(ValueView::VerbatimString { format: bytes.take(3), text: bytes.skip(4) })
    } else {
        None
    }
}

/// A block at the front of `s`: `len` bytes and a line terminator.
pub open spec fn parse_block(tag: u8, s: Seq<u8>, len: nat) -> Parsed<ValueView> {
    if s.len() < len + 2 {
        Parsed::Incomplete
    } else if s[len as int] == CR && s[len as int + 1] == LF {
        match block_value(tag, s.take(len as int)) {
            Some(value) => Parsed::Complete { value, consumed: len + 2 },
            None => Parsed::Invalid,
        }
    } else {
        Parsed::Invalid
    }
}

/// The same outcome, counted from `n` bytes earlier.
pub open spec fn shifted<T>(p: Parsed<T>, n: nat) -> Parsed<T> {
    match p {
        Parsed::Complete { value, consumed } => Parsed::Complete { value, consumed: consumed + n },
        Parsed::Incomplete => Parsed::Incomplete,
        Parsed::Invalid => Parsed::Invalid,
    }
}

/// The frame at the front of `s`.
pub open spec fn parse_value(s: Seq<u8>) -> Parsed<ValueView>
    decreases s.len(), 0nat,
{
    if s.len() == 0 {
        Parsed::Incomplete
    } else {
        let tag = s[0];
        if !is_line_tag(tag) && !is_block_tag(tag) && !is_aggregate_tag(tag) {
            Parsed::Invalid
        } else {
            match parse_line(s.skip(1)) {
                Parsed::Complete { value: text, consumed: taken } => {
                    let rest = after(s, taken + 1);
                    if is_line_tag(tag) {
                        match line_value(tag, text) {
                            Some(value) => Parsed::Complete { value, consumed: taken + 1 },
                            None => Parsed::Invalid,
                        }
                    } else {
                        match parse_i64(text) {
                            Some(n) => if n == -1 && tag == BULK_TAG {
                                Parsed::Complete { value: ValueView::Nil, consumed: taken + 1 }
                            } else if n < 0 {
                                Parsed::Invalid
                            } else if is_block_tag(tag) {
                                shifted(parse_block(tag, rest, n as nat), taken + 1)
                            } else {
                                shifted(parse_aggregate(tag, rest, n as nat), taken + 1)
                            },
                            None => Parsed::Invalid,
                        }
                    }
                },
                Parsed::Incomplete => Parsed::Incomplete,
                Parsed::Invalid => Parsed::Invalid,
            }
        }
    }
}

/// The nested frames of an aggregate with the given type byte and count, at
/// the front of `s`.
pub open spec fn parse_aggregate(tag: u8, s: Seq<u8>, n: nat) -> Parsed<ValueView>
    decreases s.len(), 2 * n + 4,
{
    if tag == ARRAY_TAG {
        match parse_items(s, n) {
            Parsed::Complete { value, consumed } => Parsed::Complete {
                value: ValueView::Array(value),
                consumed,
            },
            Parsed::Incomplete => Parsed::Incomplete,
            Parsed::Invalid => Parsed::Invalid,
        }
    } else if tag == SET_TAG {
        match parse_items(s, n) {
            Parsed::Complete { value, consumed } => Parsed::Complete {
                value: ValueView::ValueSet(value),
                consumed,
            },
            Parsed::Incomplete => Parsed::Incomplete,
            Parsed::Invalid => Parsed::Invalid,
        }
    } else if tag == MAP_TAG {
        match parse_pairs(s, n) {
            Parsed::Complete { value, consumed } => Parsed::Complete {
                value: ValueView::ValueMap(value),
                consumed,
            },
            Parsed::Incomplete => Parsed::Incomplete,
            Parsed::Invalid => Parsed::Invalid,
        }
    } else if tag == ATTRIBUTE_TAG {
        match parse_pairs(s, n) {
            Parsed::Complete { value: attributes, consumed } => match parse_value(
                after(s, consumed),
            ) {
                Parsed::Complete { value: data, consumed: more } => Parsed::Complete {
                    value: ValueView::Attribute { data: Box::new(data), attributes },
                    consumed: consumed + more,
                },
                Parsed::Incomplete => Parsed::Incomplete,
                Parsed::Invalid => Parsed::Invalid,
            },
            Parsed::Incomplete => Parsed::Incomplete,
            Parsed::Invalid => Parsed::Invalid,
        }
    } else if n == 0 {
        Parsed::Invalid
    } else if s.len() == 0 {
        Parsed::Incomplete
    } else if s[0] != SIMPLE_TAG {
        Parsed::Invalid
    } else {
        match parse_line(s.skip(1)) {
            Parsed::Complete { value: kind, consumed: taken } => match parse_items(
                after(s, taken + 1),
                (n - 1) as nat,
            ) {
                Parsed::Complete { value: data, consumed } => Parsed::Complete {
                    value: ValueView::Push { kind, data },
                    consumed: taken + 1 + consumed,
                },
                Parsed::Incomplete => Parsed::Incomplete,
                Parsed::Invalid => Parsed::Invalid,
            },
            Parsed::Incomplete => Parsed::Incomplete,
            Parsed::Invalid => Parsed::Invalid,
        }
    }
}

/// `n` frames, one after another, at the front of `s`.
pub open spec fn parse_items(s: Seq<u8>, n: nat) -> Parsed<Seq<ValueView>>
    decreases s.len(), 2 * n + 1,
{
    if n == 0 {
        Parsed::Complete { value: Seq::empty(), consumed: 0 }
    } else {
        match parse_value(s) {
            Parsed::Complete { value: first, consumed } => match parse_items(
                after(s, consumed),
                (n - 1) as nat,
            ) {
                Parsed::Complete { value: rest, consumed: more } => Parsed::Complete {
                    value: seq![first] + rest,
                    consumed: consumed + more,
                },
                Parsed::Incomplete => Parsed::Incomplete,
                Parsed::Invalid => Parsed::Invalid,
            },
            Parsed::Incomplete => Parsed::Incomplete,
            Parsed::Invalid => Parsed::Invalid,
        }
    }
}

/// `n` pairs of frames, one after another, at the front of `s`.
pub open spec fn parse_pairs(s: Seq<u8>, n: nat) -> Parsed<Seq<(ValueView, ValueView)>>
    decreases s.len(), 2 * n + 2,
{
    if n == 0 {
        Parsed::Complete { value: Seq::empty(), consumed: 0 }
    } else {
        match parse_value(s) {
            Parsed::Complete { value: key, consumed } => match parse_value(after(s, consumed)) {
                Parsed::Complete { value, consumed: more } => match parse_pairs(
                    after(after(s, consumed), more),
                    (n - 1) as nat,
                ) {
                    Parsed::Complete { value: rest, consumed: rest_taken } => Parsed::Complete {
                        value: seq![(key, value)] + rest,
                        consumed: consumed + more + rest_taken,
                    },
                    Parsed::Incomplete => Parsed::Incomplete,
                    Parsed::Invalid => Parsed::Invalid,
                },
                Parsed::Incomplete => Parsed::Incomplete,
                Parsed::Invalid => Parsed::Invalid,
            },
            Parsed::Incomplete => Parsed::Incomplete,
            Parsed::Invalid => Parsed::Invalid,
        }
    }
}

} // verus!
