use crate::grammar::{
    after, all_digits, digits_value, false_text, first_space, is_aggregate_tag, is_block_tag,
    is_digit, is_line_tag, line_end_from, line_value, parse_aggregate, parse_block, parse_i64,
    parse_items, parse_pairs, parse_value, true_text, Parsed, ARRAY_TAG, ATTRIBUTE_TAG,
    BIG_NUMBER_TAG, BOOLEAN_TAG, BULK_TAG, COLON, DOUBLE_TAG, ERROR_TAG, INT_TAG, MAP_TAG, MINUS,
    PUSH_TAG, SET_TAG, SIMPLE_TAG, SPACE, VERBATIM_TAG,
};
use crate::types::{protocol_error, ErrorKind, RedisError, RedisResult, ServerError};
use crate::value::{view_items, view_pairs, Value, ValueView};
use crate::wire::{write_bytes, CR, LF};
use vstd::prelude::*;

verus! {

/// What decoding a frame from the front of some bytes yields.
#[derive(Debug, PartialEq, Eq)]
pub enum Decoded<T> {
    /// The bytes end before the frame does: more have to arrive.
    Incomplete,
    /// The bytes cannot be the start of any frame.
    Invalid,
    /// A whole frame: what it holds, and how many bytes it takes.
    Complete { value: T, consumed: usize },
}

/// The content of a decoded value.
pub open spec fn decoded_value(d: Decoded<Value>) -> Parsed<ValueView> {
    match d {
        Decoded::Incomplete => Parsed::Incomplete,
        Decoded::Invalid => Parsed::Invalid,
        Decoded::Complete { value, consumed } => Parsed::Complete {
            value: value@,
            consumed: consumed as nat,
        },
    }
}

/// The content of a decoded sequence of values.
pub open spec fn decoded_items(d: Decoded<Vec<Value>>) -> Parsed<Seq<ValueView>> {
    match d {
        Decoded::Incomplete => Parsed::Incomplete,
        Decoded::Invalid => Parsed::Invalid,
        Decoded::Complete { value, consumed } => Parsed::Complete {
            value: view_items(value@),
            consumed: consumed as nat,
        },
    }
}

/// The content of a decoded sequence of pairs of values.
pub open spec fn decoded_pairs(d: Decoded<Vec<(Value, Value)>>) -> Parsed<
    Seq<(ValueView, ValueView)>,
> {
    match d {
        Decoded::Incomplete => Parsed::Incomplete,
        Decoded::Invalid => Parsed::Invalid,
        Decoded::Complete { value, consumed } => Parsed::Complete {
            value: view_pairs(value@),
            consumed: consumed as nat,
        },
    }
}

/// The outcome of reading more frames after `done`, which took `taken` bytes.
pub open spec fn prepended<T>(done: Seq<T>, taken: nat, more: Parsed<Seq<T>>) -> Parsed<Seq<T>> {
    match more {
        Parsed::Complete { value, consumed } => Parsed::Complete {
            value: done + value,
            consumed: taken + consumed,
        },
        Parsed::Incomplete => Parsed::Incomplete,
        Parsed::Invalid => Parsed::Invalid,
    }
}

/// A copy of the bytes of `buf` from `from` up to `to`.
fn copy_range(buf: &[u8], from: usize, to: usize) -> (out: Vec<u8>)
    requires
        from <= to <= buf@.len(),
    ensures
        out@ == buf@.subrange(from as int, to as int),
{
    let mut out: Vec<u8> = Vec::new();
    let mut i: usize = from;
    while i < to
        invariant
            from <= i <= to <= buf@.len(),
            out@ == buf@.subrange(from as int, i as int),
        decreases to - i,
    {
        out.push(buf[i]);
        i = i + 1;
    }
    out
}

/// Whether the bytes of `buf` from `from` up to `to` are those of `text`.
fn range_is(buf: &[u8], from: usize, to: usize, text: &[u8]) -> (r: bool)
    requires
        from <= to <= buf@.len(),
    ensures
        r == (buf@.subrange(from as int, to as int) == text@),
{
    let ghost range = buf@.subrange(from as int, to as int);
    if to - from != text.len() {
        return false;
    }
    let mut i: usize = 0;
    while i < text.len()
        invariant
            from <= to <= buf@.len(),
            to - from == text@.len(),
            i <= text@.len(),
            range == buf@.subrange(from as int, to as int),
            forall|j: int| 0 <= j < i ==> range[j] == text@[j],
        decreases text@.len() - i,
    {
        if buf[from + i] != text[i] {
            return false;
        }
        i = i + 1;
    }
    assert(range =~= text@);
    true
}

/// The position of the first line terminator of `buf` at or after `pos`.
fn find_line(buf: &[u8], pos: usize) -> (r: Option<usize>)
    requires
        pos <= buf@.len(),
    ensures
        match line_end_from(buf@.skip(pos as int), 0) {
            Some(end) => r == Some((pos + end) as usize) && pos + end + 2 <= buf@.len(),
            None => r is None,
        },
{
    let ghost sub = buf@.skip(pos as int);
    let mut i: usize = pos;
    while buf.len() - i >= 2
        invariant
            pos <= i <= buf@.len(),
            sub == buf@.skip(pos as int),
            line_end_from(sub, 0) == line_end_from(sub, (i - pos) as nat),
        decreases buf@.len() - i,
    {
        if buf[i] == CR && buf[i + 1] == LF {
            return Some(i);
        }
        i = i + 1;
    }
    None
}

/// A text of digits stands for at least as much as any of its front parts.
proof fn lemma_digits_grow(text: Seq<u8>, k: int)
    requires
        0 <= k <= text.len(),
        all_digits(text),
    ensures
        digits_value(text.take(k)) <= digits_value(text),
    decreases text.len(),
{
    if k < text.len() {
        assert(text.drop_last().take(k) =~= text.take(k));
        assert forall|j: int| 0 <= j < text.drop_last().len() implies is_digit(
            #[trigger] text.drop_last()[j],
        ) by {
            assert(text.drop_last()[j] == text[j]);
        }
        lemma_digits_grow(text.drop_last(), k);
    } else {
        assert(text.take(k) =~= text);
    }
}

/// The integer that the bytes of `buf` from `from` up to `to` stand for.
fn read_i64(buf: &[u8], from: usize, to: usize) -> (r: Option<i64>)
    requires
        from <= to <= buf@.len(),
    ensures
        r == parse_i64(buf@.subrange(from as int, to as int)),
{
    let ghost text = buf@.subrange(from as int, to as int);
    if from == to {
        return None;
    }
    let negative = buf[from] == MINUS;
    let start: usize = if negative {
        from + 1
    } else {
        from
    };
    if start == to {
        return None;
    }
    let ghost digits = buf@.subrange(start as int, to as int);
    // the magnitude so far; it stays within that of the least 64-bit integer
    let mut acc: u128 = 0;
    let mut i: usize = start;
    while i < to
        invariant
            start <= i <= to <= buf@.len(),
            digits == buf@.subrange(start as int, to as int),
            text == buf@.subrange(from as int, to as int),
            from < to,
            negative == (text[0] == MINUS),
            digits == if negative {
                text.skip(1)
            } else {
                text
            },
            all_digits(digits.take(i - start)),
            acc == digits_value(digits.take(i - start)),
            acc <= 9223372036854775808,
        decreases to - i,
    {
        let b = buf[i];
        assert(digits[i - start] == b);
        // not a digit
        if b < 48 || b > 57 {
            return None;
        }
        let ghost before = digits.take(i - start);
        let ghost now = digits.take(i - start + 1);
        assert(now.drop_last() =~= before);
        assert forall|j: int| 0 <= j < now.len() implies is_digit(#[trigger] now[j]) by {
            if j < before.len() {
                assert(now[j] == before[j]);
            }
        }
        acc = acc * 10 + (b - 48) as u128;
        if acc > 9223372036854775808 {
            proof {
                if all_digits(digits) {
                    lemma_digits_grow(digits, i - start + 1);
                }
            }
            return None;
        }
        i = i + 1;
    }
    assert(digits.take(i - start) =~= digits);
    if negative {
        Some((-(acc as i128)) as i64)
    } else if acc <= 9223372036854775807 {
        Some(acc as i64)
    } else {
        None
    }
}

/// The position of the first space of `buf` from `from` up to `to`.
fn find_space(buf: &[u8], from: usize, to: usize) -> (r: Option<usize>)
    requires
        from <= to <= buf@.len(),
    ensures
        match first_space(buf@.subrange(from as int, to as int), 0) {
            Some(at) => r == Some((from + at) as usize) && from + at < to,
            None => r is None,
        },
{
    let ghost text = buf@.subrange(from as int, to as int);
    let mut i: usize = from;
    while i < to
        invariant
            from <= i <= to <= buf@.len(),
            text == buf@.subrange(from as int, to as int),
            first_space(text, 0) == first_space(text, (i - from) as nat),
        decreases to - i,
    {
        if buf[i] == SPACE {
            return Some(i);
        }
        i = i + 1;
    }
    None
}

/// The value that the line of `buf` from `from` up to `to` stands for under
/// the given type byte.
fn decode_line(tag: u8, buf: &[u8], from: usize, to: usize) -> (r: Option<Value>)
    requires
        from <= to <= buf@.len(),
        is_line_tag(tag),
    ensures
        match line_value(tag, buf@.subrange(from as int, to as int)) {
            Some(v) => r matches Some(value) && value@ == v,
            None => r is None,
        },
{
    let ghost text = buf@.subrange(from as int, to as int);
    if tag == SIMPLE_TAG {
        let ok: [u8; 2] = [79, 75];  // "OK"
        if range_is(buf, from, to, ok.as_slice()) {
            Some(Value::Okay)
        } else {
            Some(Value::SimpleString(copy_range(buf, from, to)))
        }
    } else if tag == ERROR_TAG {
        match find_space(buf, from, to) {
            Some(at) => {
                let code = copy_range(buf, from, at);
                let detail = copy_range(buf, at + 1, to);
                assert(code@ =~= text.take(at - from));
                assert(detail@ =~= text.skip(at - from + 1));
                Some(Value::ServerError(ServerError { code, detail: Some(detail) }))
            },
            None => Some(
                Value::ServerError(ServerError { code: copy_range(buf, from, to), detail: None }),
            ),
        }
    } else if tag == INT_TAG {
        match read_i64(buf, from, to) {
            Some(n) => Some(Value::Int(n)),
            None => None,
        }
    } else if tag == DOUBLE_TAG {
        Some(Value::Double(copy_range(buf, from, to)))
    } else if tag == BIG_NUMBER_TAG {
        Some(Value::BigNumber(copy_range(buf, from, to)))
    } else {
        let yes: [u8; 1] = [116];  // "t"
        let no: [u8; 1] = [102];  // "f"
        assert(yes@ =~= true_text());
        assert(no@ =~= false_text());
        if range_is(buf, from, to, yes.as_slice()) {
            Some(Value::Boolean(true))
        } else if range_is(buf, from, to, no.as_slice()) {
            Some(Value::Boolean(false))
        } else {
            None
        }
    }
}

/// The block of `len` bytes at `pos` of `buf`, under the given type byte.
fn decode_block(tag: u8, buf: &[u8], pos: usize, len: u64) -> (r: Decoded<Value>)
    requires
        pos <= buf@.len(),
        buf@.len() <= usize::MAX,
        is_block_tag(tag),
        len <= i64::MAX,
    ensures
        decoded_value(r) == parse_block(tag, buf@.skip(pos as int), len as nat),
        r matches Decoded::Complete { consumed, .. } ==> pos + consumed <= buf@.len(),
{
    let ghost s = buf@.skip(pos as int);
    let remaining: usize = buf.len() - pos;
    if (remaining as u64) < len + 2 {
        return Decoded::Incomplete;
    }
    let size: usize = len as usize;
    if buf[pos + size] != CR || buf[pos + size + 1] != LF {
        return Decoded::Invalid;
    }
    assert(s.take(size as int) =~= buf@.subrange(pos as int, pos + size));
    if tag == BULK_TAG {
        Decoded::Complete {
            value: Value::BulkString(copy_range(buf, pos, pos + size)),
            consumed: size + 2,
        }
    } else {
        if size >= 4 && buf[pos + 3] == COLON {
            let format = copy_range(buf, pos, pos + 3);
            let text = copy_range(buf, pos + 4, pos + size);
            assert(format@ =~= s.take(size as int).take(3));
            assert(text@ =~= s.take(size as int).skip(4));
            Decoded::Complete { value: Value::VerbatimString { format, text }, consumed: size + 2 }
        } else {
            Decoded::Invalid
        }
    }
}

/// Decodes the frame that starts at `pos` of `buf`.
pub fn decode_at(buf: &[u8], pos: usize) -> (r: Decoded<Value>)
    requires
        pos <= buf@.len(),
    ensures
        decoded_value(r) == parse_value(buf@.skip(pos as int)),
        r matches Decoded::Complete { consumed, .. } ==> 1 <= consumed && pos + consumed
            <= buf@.len(),
    decreases buf@.len() - pos, 0nat,
{
    let ghost s = buf@.skip(pos as int);
    if pos >= buf.len() {
        return Decoded::Incomplete;
    }
    let tag = buf[pos];
    let line_tag = tag == SIMPLE_TAG || tag == ERROR_TAG || tag == INT_TAG || tag == DOUBLE_TAG
        || tag == BIG_NUMBER_TAG || tag == BOOLEAN_TAG;
    let block_tag = tag == BULK_TAG || tag == VERBATIM_TAG;
    let aggregate_tag = tag == ARRAY_TAG || tag == SET_TAG || tag == MAP_TAG || tag
        == ATTRIBUTE_TAG || tag == PUSH_TAG;
    if !line_tag && !block_tag && !aggregate_tag {
        return Decoded::Invalid;
    }
    assert(s.skip(1) =~= buf@.skip(pos + 1));
    let end = match find_line(buf, pos + 1) {
        Some(end) => end,
        None => {
            return Decoded::Incomplete;
        },
    };
    let next: usize = end + 2;
    let ghost taken = (next - pos - 1) as nat;
    proof {
        assert(s.skip(1).take(end - pos - 1) =~= buf@.subrange(pos + 1, end as int));
        assert(after(s, taken + 1) =~= buf@.skip(next as int));
    }
    if line_tag {
        match decode_line(tag, buf, pos + 1, end) {
            Some(value) => Decoded::Complete { value, consumed: next - pos },
            None => Decoded::Invalid,
        }
    } else {
        match read_i64(buf, pos + 1, end) {
            None => Decoded::Invalid,
            Some(n) => {
                if n == -1 && tag == BULK_TAG {
                    Decoded::Complete { value: Value::Nil, consumed: next - pos }
                } else if n < 0 {
                    Decoded::Invalid
                } else {
                    let inner = if block_tag {
                        decode_block(tag, buf, next, n as u64)
                    } else {
                        decode_aggregate(tag, buf, next, n as u64)
                    };
                    match inner {
                        Decoded::Complete { value, consumed } => Decoded::Complete {
                            value,
                            consumed: consumed + (next - pos),
                        },
                        Decoded::Incomplete => Decoded::Incomplete,
                        Decoded::Invalid => Decoded::Invalid,
                    }
                }
            },
        }
    }
}

/// Decodes the nested frames of an aggregate with the given type byte and
/// count, which start at `pos` of `buf`.
fn decode_aggregate(tag: u8, buf: &[u8], pos: usize, n: u64) -> (r: Decoded<Value>)
    requires
        pos <= buf@.len(),
        buf@.len() <= usize::MAX,
        is_aggregate_tag(tag),
    ensures
        decoded_value(r) == parse_aggregate(tag, buf@.skip(pos as int), n as nat),
        r matches Decoded::Complete { consumed, .. } ==> pos + consumed <= buf@.len(),
    decreases buf@.len() - pos, 2 * n + 4,
{
    if tag == ARRAY_TAG || tag == SET_TAG {
        match decode_items(buf, pos, n) {
            Decoded::Complete { value, consumed } => Decoded::Complete {
                value: if tag == ARRAY_TAG {
                    Value::Array(value)
                } else {
                    Value::ValueSet(value)
                },
                consumed,
            },
            Decoded::Incomplete => Decoded::Incomplete,
            Decoded::Invalid => Decoded::Invalid,
        }
    } else if tag == MAP_TAG {
        match decode_pairs(buf, pos, n) {
            Decoded::Complete { value, consumed } => Decoded::Complete {
                value: Value::ValueMap(value),
                consumed,
            },
            Decoded::Incomplete => Decoded::Incomplete,
            Decoded::Invalid => Decoded::Invalid,
        }
    } else if tag == ATTRIBUTE_TAG {
        decode_attribute(buf, pos, n)
    } else {
        decode_push(buf, pos, n)
    }
}

/// Decodes the attributes and the annotated value of an attribute frame with
/// `n` attributes, which start at `pos` of `buf`.
fn decode_attribute(buf: &[u8], pos: usize, n: u64) -> (r: Decoded<Value>)
    requires
        pos <= buf@.len(),
        buf@.len() <= usize::MAX,
    ensures
        decoded_value(r) == parse_aggregate(ATTRIBUTE_TAG, buf@.skip(pos as int), n as nat),
        r matches Decoded::Complete { consumed, .. } ==> pos + consumed <= buf@.len(),
    decreases buf@.len() - pos, 2 * n + 3,
{
    let ghost s = buf@.skip(pos as int);
    match decode_pairs(buf, pos, n) {
        Decoded::Complete { value: attributes, consumed } => {
            assert(after(s, consumed as nat) =~= buf@.skip(pos + consumed));
            match decode_at(buf, pos + consumed) {
                Decoded::Complete { value: data, consumed: more } => Decoded::Complete {
                    value: Value::Attribute { data: Box::new(data), attributes },
                    consumed: consumed + more,
                },
                Decoded::Incomplete => Decoded::Incomplete,
                Decoded::Invalid => Decoded::Invalid,
            }
        },
        Decoded::Incomplete => Decoded::Incomplete,
        Decoded::Invalid => Decoded::Invalid,
    }
}

/// Decodes the kind and the payload of a push frame of `n` elements, which
/// start at `pos` of `buf`.
fn decode_push(buf: &[u8], pos: usize, n: u64) -> (r: Decoded<Value>)
    requires
        pos <= buf@.len(),
        buf@.len() <= usize::MAX,
    ensures
        decoded_value(r) == parse_aggregate(PUSH_TAG, buf@.skip(pos as int), n as nat),
        r matches Decoded::Complete { consumed, .. } ==> pos + consumed <= buf@.len(),
    decreases buf@.len() - pos, 2 * n + 3,
{
    let ghost s = buf@.skip(pos as int);
    if n == 0 {
        Decoded::Invalid
    } else if pos >= buf.len() {
        Decoded::Incomplete
    } else {
        if buf[pos] != SIMPLE_TAG {
            return Decoded::Invalid;
        }
        assert(s.skip(1) =~= buf@.skip(pos + 1));
        match find_line(buf, pos + 1) {
            None => Decoded::Incomplete,
            Some(end) => {
                let next: usize = end + 2;
                let ghost taken = (next - pos - 1) as nat;
                proof {
                    assert(s.skip(1).take(end - pos - 1) =~= buf@.subrange(pos + 1, end as int));
                    assert(after(s, taken + 1) =~= buf@.skip(next as int));
                }
                let kind = copy_range(buf, pos + 1, end);
                match decode_items(buf, next, n - 1) {
                    Decoded::Complete { value: data, consumed } => Decoded::Complete {
                        value: Value::Push { kind, data },
                        consumed: consumed + (next - pos),
                    },
                    Decoded::Incomplete => Decoded::Incomplete,
                    Decoded::Invalid => Decoded::Invalid,
                }
            },
        }
    }
}

/// Decodes `n` frames, one after another, which start at `pos` of `buf`.
fn decode_items(buf: &[u8], pos: usize, n: u64) -> (r: Decoded<Vec<Value>>)
    requires
        pos <= buf@.len(),
        buf@.len() <= usize::MAX,
    ensures
        decoded_items(r) == parse_items(buf@.skip(pos as int), n as nat),
        r matches Decoded::Complete { consumed, .. } ==> pos + consumed <= buf@.len(),
    decreases buf@.len() - pos, 2 * n + 1,
{
    let ghost s = buf@.skip(pos as int);
    let mut items: Vec<Value> = Vec::new();
    let mut cur: usize = pos;
    let mut k: u64 = 0;
    while k < n
        invariant
            pos <= cur <= buf@.len(),
            buf@.len() <= usize::MAX,
            k <= n,
            s == buf@.skip(pos as int),
            parse_items(s, n as nat) == prepended(
                view_items(items@),
                (cur - pos) as nat,
                parse_items(buf@.skip(cur as int), (n - k) as nat),
            ),
        decreases n - k,
    {
        let ghost rest = buf@.skip(cur as int);
        let ghost done = view_items(items@);
        match decode_at(buf, cur) {
            Decoded::Complete { value, consumed } => {
                proof {
                    assert(after(rest, consumed as nat) =~= buf@.skip(cur + consumed));
                }
                items.push(value);
                proof {
                    assert(view_items(items@) =~= done.push(value@));
                    match parse_items(buf@.skip(cur + consumed), (n - k - 1) as nat) {
                        Parsed::Complete { value: tail, consumed: more } => {
                            assert(done + (seq![value@] + tail) =~= done.push(value@) + tail);
                        },
                        _ => {},
                    }
                }
                cur = cur + consumed;
                k = k + 1;
            },
            Decoded::Incomplete => {
                return Decoded::Incomplete;
            },
            Decoded::Invalid => {
                return Decoded::Invalid;
            },
        }
    }
    Decoded::Complete { value: items, consumed: cur - pos }
}

/// Decodes `n` pairs of frames, one after another, which start at `pos` of `buf`.
fn decode_pairs(buf: &[u8], pos: usize, n: u64) -> (r: Decoded<Vec<(Value, Value)>>)
    requires
        pos <= buf@.len(),
        buf@.len() <= usize::MAX,
    ensures
        decoded_pairs(r) == parse_pairs(buf@.skip(pos as int), n as nat),
        r matches Decoded::Complete { consumed, .. } ==> pos + consumed <= buf@.len(),
    decreases buf@.len() - pos, 2 * n + 2,
{
    let ghost s = buf@.skip(pos as int);
    let mut pairs: Vec<(Value, Value)> = Vec::new();
    let mut cur: usize = pos;
    let mut k: u64 = 0;
    while k < n
        invariant
            pos <= cur <= buf@.len(),
            buf@.len() <= usize::MAX,
            k <= n,
            s == buf@.skip(pos as int),
            parse_pairs(s, n as nat) == prepended(
                view_pairs(pairs@),
                (cur - pos) as nat,
                parse_pairs(buf@.skip(cur as int), (n - k) as nat),
            ),
        decreases n - k,
    {
        let ghost rest = buf@.skip(cur as int);
        let ghost done = view_pairs(pairs@);
        match decode_at(buf, cur) {
            Decoded::Complete { value: key, consumed } => {
                proof {
                    assert(after(rest, consumed as nat) =~= buf@.skip(cur + consumed));
                }
                match decode_at(buf, cur + consumed) {
                    Decoded::Complete { value, consumed: more } => {
                        proof {
                            assert(after(after(rest, consumed as nat), more as nat) =~= buf@.skip(
                                cur + consumed + more,
                            ));
                        }
                        let ghost pair = (key@, value@);
                        pairs.push((key, value));
                        proof {
                            assert(view_pairs(pairs@) =~= done.push(pair));
                            match parse_pairs(
                                buf@.skip(cur + consumed + more),
                                (n - k - 1) as nat,
                            ) {
                                Parsed::Complete { value: tail, consumed: rest_taken } => {
                                    assert(done + (seq![pair] + tail) =~= done.push(pair) + tail);
                                },
                                _ => {},
                            }
                        }
                        cur = cur + consumed + more;
                        k = k + 1;
                    },
                    Decoded::Incomplete => {
                        return Decoded::Incomplete;
                    },
                    Decoded::Invalid => {
                        return Decoded::Invalid;
                    },
                }
            },
            Decoded::Incomplete => {
                return Decoded::Incomplete;
            },
            Decoded::Invalid => {
                return Decoded::Invalid;
            },
        }
    }
    Decoded::Complete { value: pairs, consumed: cur - pos }
}

/// Decodes the frame at the front of `buf`.
pub fn decode_value(buf: &[u8]) -> (r: Decoded<Value>)
    ensures
        decoded_value(r) == parse_value(buf@),
        r matches Decoded::Complete { consumed, .. } ==> 1 <= consumed <= buf@.len(),
{
    assert(buf@.skip(0) =~= buf@);
    decode_at(buf, 0)
}

/// The resumable decoder of a stream of replies: the bytes that have arrived
/// and do not yet belong to a reply that was handed out.
pub struct Decoder {
    pending: Vec<u8>,
}

impl View for Decoder {
    type V = Seq<u8>;

    closed spec fn view(&self) -> Seq<u8> {
        self.pending@
    }
}

impl Decoder {
    /// A decoder that holds no bytes.
    pub fn new() -> (d: Decoder)
        ensures
            d@ == Seq::<u8>::empty(),
    {
        Decoder { pending: Vec::new() }
    }

    /// Takes in the bytes of one read, after those that are already held.
    pub fn feed(&mut self, chunk: &[u8])
        ensures
            final(self)@ == old(self)@ + chunk@,
    {
        write_bytes(chunk, &mut self.pending);
    }

    /// Hands out the next reply if the bytes held so far contain all of it.
    ///
    /// A whole reply is handed out and its bytes are dropped. Where the bytes
    /// end before the reply does, nothing is handed out and nothing changes:
    /// the decoder resumes when more bytes have been fed. Bytes that cannot
    /// start a reply give a protocol error and stay where they are.
    pub fn next_value(&mut self) -> (r: Option<RedisResult<Value>>)
        ensures
            match parse_value(old(self)@) {
                Parsed::Incomplete => r is None && final(self)@ == old(self)@,
                Parsed::Invalid => r matches Some(Err(e)) && e@ == protocol_error() && final(self)@
                    == old(self)@,
                Parsed::Complete { value, consumed } => r matches Some(Ok(v)) && v@ == value && 1
                    <= consumed <= old(self)@.len() && final(self)@ == old(self)@.skip(
                    consumed as int,
                ),
            },
    {
        match decode_value(self.pending.as_slice()) {
            Decoded::Incomplete => None,
            Decoded::Invalid => Some(Err(RedisError::of_kind(ErrorKind::Protocol))),
            Decoded::Complete { value, consumed } => {
                let rest = self.pending.split_off(consumed);
                self.pending = rest;
                Some(Ok(value))
            },
        }
    }
}

} // verus!
