use crate::grammar::{
    after, is_aggregate_tag, is_block_tag, is_line_tag, line_end_from, parse_aggregate, parse_block,
    parse_i64, parse_items, parse_line, parse_pairs, parse_value, Parsed, ARRAY_TAG, ATTRIBUTE_TAG,
    MAP_TAG, SET_TAG, SIMPLE_TAG,
};
use vstd::prelude::*;

verus! {

/// Whether reading a frame from `s` and from `s` followed by more bytes
/// comes to the same: a whole frame stays what it is and lies within `s`,
/// and bytes that cannot start a frame still cannot.
pub open spec fn settled<T>(before: Parsed<T>, after: Parsed<T>, len: nat) -> bool {
    match before {
        Parsed::Complete { value, consumed } => after == before && consumed <= len,
        Parsed::Invalid => after is Invalid,
        Parsed::Incomplete => true,
    }
}

/// A line terminator that has been found stays the first one.
proof fn lemma_line_end_stays(s: Seq<u8>, more: Seq<u8>, from: nat)
    ensures
        line_end_from(s, from) matches Some(end) ==> line_end_from(s + more, from) == Some(end)
            && end + 2 <= s.len(),
    decreases s.len() - from,
{
    if from + 2 <= s.len() {
        lemma_line_end_stays(s, more, from + 1);
    }
}

/// A line that has been read stays what it is when more bytes arrive.
proof fn lemma_line_stays(s: Seq<u8>, more: Seq<u8>)
    ensures
        settled(parse_line(s), parse_line(s + more), s.len()),
{
    lemma_line_end_stays(s, more, 0);
    match line_end_from(s, 0) {
        Some(end) => {
            assert((s + more).take(end as int) =~= s.take(end as int));
        },
        None => {},
    }
}

/// A block that has been read stays what it is when more bytes arrive.
proof fn lemma_block_stays(tag: u8, s: Seq<u8>, more: Seq<u8>, len: nat)
    ensures
        settled(parse_block(tag, s, len), parse_block(tag, s + more, len), s.len()),
{
    if s.len() >= len + 2 {
        assert((s + more).take(len as int) =~= s.take(len as int));
    }
}

/// The bytes after a part of `s` are followed by whatever follows `s`.
proof fn lemma_after_more(s: Seq<u8>, more: Seq<u8>, n: nat)
    requires
        n <= s.len(),
    ensures
        after(s + more, n) == after(s, n) + more,
        after(s, n).len() == s.len() - n,
{
}

/// A frame that has been read stays what it is when more bytes arrive.
///
/// Once the bytes that have arrived hold a whole frame, the frame that is
/// read from them, and the number of bytes it takes, no longer depend on
/// what arrives later; the frame lies within the bytes that have arrived.
/// Bytes that cannot start a frame cannot do so later either. So a decoder
/// may be asked for a frame at any time: what it hands out does not depend
/// on how the stream was cut into reads.
pub proof fn arrived_frame_stays(s: Seq<u8>, more: Seq<u8>)
    ensures
        settled(parse_value(s), parse_value(s + more), s.len()),
    decreases s.len(), 0nat,
{
    if s.len() > 0 {
        let tag = s[0];
        if is_line_tag(tag) || is_block_tag(tag) || is_aggregate_tag(tag) {
            assert((s + more).skip(1) =~= s.skip(1) + more);
            lemma_line_stays(s.skip(1), more);
            match parse_line(s.skip(1)) {
                Parsed::Complete { value: text, consumed: taken } => {
                    lemma_after_more(s, more, taken + 1);
                    let rest = after(s, taken + 1);
                    match parse_i64(text) {
                        Some(n) => {
                            if n >= 0 {
                                if is_block_tag(tag) {
                                    lemma_block_stays(tag, rest, more, n as nat);
                                } else if is_aggregate_tag(tag) {
                                    lemma_aggregate_stays(tag, rest, more, n as nat);
                                }
                            }
                        },
                        None => {},
                    }
                },
                _ => {},
            }
        }
    }
}

/// The nested frames of an aggregate that have been read stay what they are
/// when more bytes arrive.
proof fn lemma_aggregate_stays(tag: u8, s: Seq<u8>, more: Seq<u8>, n: nat)
    ensures
        settled(parse_aggregate(tag, s, n), parse_aggregate(tag, s + more, n), s.len()),
    decreases s.len(), 2 * n + 4,
{
    if tag == ARRAY_TAG || tag == SET_TAG {
        lemma_items_stay(s, more, n);
    } else if tag == MAP_TAG {
        lemma_pairs_stay(s, more, n);
    } else if tag == ATTRIBUTE_TAG {
        lemma_pairs_stay(s, more, n);
        match parse_pairs(s, n) {
            Parsed::Complete { value, consumed } => {
                lemma_after_more(s, more, consumed);
                arrived_frame_stays(after(s, consumed), more);
            },
            _ => {},
        }
    } else if n > 0 && s.len() > 0 {
        if s[0] == SIMPLE_TAG {
            assert((s + more).skip(1) =~= s.skip(1) + more);
            lemma_line_stays(s.skip(1), more);
            match parse_line(s.skip(1)) {
                Parsed::Complete { value: kind, consumed: taken } => {
                    lemma_after_more(s, more, taken + 1);
                    lemma_items_stay(after(s, taken + 1), more, (n - 1) as nat);
                },
                _ => {},
            }
        }
    }
}

/// Frames that have been read one after another stay what they are when
/// more bytes arrive.
proof fn lemma_items_stay(s: Seq<u8>, more: Seq<u8>, n: nat)
    ensures
        settled(parse_items(s, n), parse_items(s + more, n), s.len()),
    decreases s.len(), 2 * n + 1,
{
    if n > 0 {
        arrived_frame_stays(s, more);
        match parse_value(s) {
            Parsed::Complete { value, consumed } => {
                lemma_after_more(s, more, consumed);
                lemma_items_stay(after(s, consumed), more, (n - 1) as nat);
            },
            _ => {},
        }
    }
}

/// Pairs of frames that have been read one after another stay what they are
/// when more bytes arrive.
proof fn lemma_pairs_stay(s: Seq<u8>, more: Seq<u8>, n: nat)
    ensures
        settled(parse_pairs(s, n), parse_pairs(s + more, n), s.len()),
    decreases s.len(), 2 * n + 2,
{
    if n > 0 {
        arrived_frame_stays(s, more);
        match parse_value(s) {
            Parsed::Complete { value: key, consumed } => {
                lemma_after_more(s, more, consumed);
                let rest = after(s, consumed);
                arrived_frame_stays(rest, more);
                match parse_value(rest) {
                    Parsed::Complete { value, consumed: taken } => {
                        lemma_after_more(rest, more, taken);
                        lemma_pairs_stay(after(rest, taken), more, (n - 1) as nat);
                    },
                    _ => {},
                }
            },
            _ => {},
        }
    }
}

} // verus!
