use vstd::prelude::*;

verus! {

/// Carriage return, the first byte of a line terminator.
pub const CR: u8 = 13;

/// Line feed, the second byte of a line terminator.
pub const LF: u8 = 10;

/// The line terminator of the wire format.
pub open spec fn crlf() -> Seq<u8> {
    seq![CR, LF]
}

/// The ASCII digit for `d`, where `d` is below ten.
pub open spec fn digit(d: nat) -> u8 {
    (48 + d) as u8
}

/// The decimal digits of `n` in ASCII, most significant first, without leading zeros.
pub open spec fn decimal(n: nat) -> Seq<u8>
    decreases n,
{
    if n < 10 {
        seq![digit(n)]
    } else {
        decimal(n / 10).push(digit(n % 10))
    }
}

/// The decimal text of a signed integer: a minus sign for negative numbers, then the digits.
pub open spec fn signed_decimal(n: int) -> Seq<u8> {
    if n < 0 {
        seq![45u8] + decimal((-n) as nat)
    } else {
        decimal(n as nat)
    }
}

/// A header line: a type byte, a decimal count, and the line terminator.
pub open spec fn header(tag: u8, n: nat) -> Seq<u8> {
    seq![tag] + decimal(n) + crlf()
}

/// A text line: a type byte, the text, and the line terminator.
pub open spec fn line(tag: u8, text: Seq<u8>) -> Seq<u8> {
    seq![tag] + text + crlf()
}

/// A length-prefixed block: a header with the length, the bytes, and the line terminator.
pub open spec fn block(tag: u8, bytes: Seq<u8>) -> Seq<u8> {
    header(tag, bytes.len()) + bytes + crlf()
}

/// Appends the decimal text of `n` to `out`.
pub fn write_decimal(n: u128, out: &mut Vec<u8>)
    ensures
        final(out)@ == old(out)@ + decimal(n as nat),
{
    let mut digits: Vec<u8> = Vec::new();
    let mut rest: u128 = n;
    // least significant digit first
    digits.push(48 + (rest % 10) as u8);
    rest = rest / 10;
    while rest > 0
        invariant
            digits@.len() >= 1,
            decimal(n as nat) == if rest == 0 {
                digits@.reverse()
            } else {
                decimal(rest as nat) + digits@.reverse()
            },
        decreases rest,
    {
        digits.push(48 + (rest % 10) as u8);
        rest = rest / 10;
    }
    let mut i: usize = digits.len();
    let ghost start = out@;
    while i > 0
        invariant
            i <= digits@.len(),
            out@ == start + digits@.reverse().subrange(0, digits@.len() - i),
        decreases i,
    {
        i = i - 1;
        out.push(digits[i]);
    }
}

/// Appends the decimal text of a signed integer to `out`.
pub fn write_signed_decimal(n: i64, out: &mut Vec<u8>)
    ensures
        final(out)@ == old(out)@ + signed_decimal(n as int),
{
    if n < 0 {
        out.push(45);  // "-"
        write_decimal((-(n as i128)) as u128, out);
    } else {
        write_decimal(n as u128, out);
    }
}

/// Appends the line terminator to `out`.
pub fn write_crlf(out: &mut Vec<u8>)
    ensures
        final(out)@ == old(out)@ + crlf(),
{
    out.push(CR);
    out.push(LF);
}

/// Appends a header line to `out`.
pub fn write_header(tag: u8, n: u128, out: &mut Vec<u8>)
    ensures
        final(out)@ == old(out)@ + header(tag, n as nat),
{
    out.push(tag);
    write_decimal(n, out);
    write_crlf(out);
}

/// Appends all of `bytes` to `out`.
pub fn write_bytes(bytes: &[u8], out: &mut Vec<u8>)
    ensures
        final(out)@ == old(out)@ + bytes@,
{
    out.extend_from_slice(bytes);
}

/// Appends a text line to `out`.
pub fn write_line(tag: u8, text: &[u8], out: &mut Vec<u8>)
    ensures
        final(out)@ == old(out)@ + line(tag, text@),
{
    out.push(tag);
    write_bytes(text, out);
    write_crlf(out);
}

/// Appends a length-prefixed block to `out`.
pub fn write_block(tag: u8, bytes: &[u8], out: &mut Vec<u8>)
    ensures
        final(out)@ == old(out)@ + block(tag, bytes@),
{
    write_header(tag, bytes.len() as u128, out);
    write_bytes(bytes, out);
    write_crlf(out);
}

} // verus!
