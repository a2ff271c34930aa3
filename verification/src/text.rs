//! Source text as bytes: lines, blanks, positions, and numbers written out.

use vstd::prelude::*;
use vstd::string::*;
use vstd::utf8::{is_char_boundary, is_continuation_byte};
use crate::hex::{hex_char, hex_digits};

verus! {

/// Whether `b` is a blank: a space, a tab, a line feed, a vertical tab, a
/// form feed or a carriage return.
pub open spec fn is_blank(b: u8) -> bool {
    b == 0x20 || (0x09 <= b && b <= 0x0d)
}

/// Whether `b` is a blank.
pub fn blank(b: u8) -> (res: bool)
    ensures
        res == is_blank(b),
{
    b == 0x20 || (0x09 <= b && b <= 0x0d)
}

/// The number of bytes from `from` up to the next line feed, or to the end
/// of the text where there is none.
pub open spec fn line_len(bytes: Seq<u8>, from: int) -> nat
    decreases bytes.len() - from,
{
    if from < 0 || from >= bytes.len() || bytes[from] == 0x0a {
        0
    } else {
        1 + line_len(bytes, from + 1)
    }
}

/// The index of the first line feed at or behind `from`; the length of the
/// text where there is none.
pub open spec fn line_end(bytes: Seq<u8>, from: int) -> int {
    from + line_len(bytes, from)
}

/// The index of the first line feed at or behind `from`; the length of
/// the text where there is none.
pub fn find_line_end(bytes: &[u8], from: usize) -> (end: usize)
    requires
        from <= bytes@.len(),
    ensures
        end == line_end(bytes@, from as int),
        from <= end <= bytes@.len(),
{
    let mut i: usize = from;
    while i < bytes.len() && bytes[i] != 0x0a
        invariant
            from <= i <= bytes@.len(),
            line_end(bytes@, from as int) == line_end(bytes@, i as int),
        decreases bytes@.len() - i,
    {
        i += 1;
    }
    i
}

/// Where the part of the text from `from` up to `to` ends once the blanks
/// at its end are taken off.
pub open spec fn trimmed_end(bytes: Seq<u8>, from: int, to: int) -> int
    decreases to - from,
{
    if to <= from {
        from
    } else if is_blank(bytes[to - 1]) {
        trimmed_end(bytes, from, to - 1)
    } else {
        to
    }
}

/// Where the part of the text from `from` up to `to` ends once the
/// blanks at its end are taken off.
pub fn trim_end(bytes: &[u8], from: usize, to: usize) -> (end: usize)
    requires
        from <= to <= bytes@.len(),
    ensures
        end == trimmed_end(bytes@, from as int, to as int),
        from <= end <= to,
{
    let mut i: usize = to;
    while i > from && blank(bytes[i - 1])
        invariant
            from <= i <= to <= bytes@.len(),
            trimmed_end(bytes@, from as int, to as int) == trimmed_end(bytes@, from as int, i as int),
        decreases i,
    {
        i -= 1;
    }
    i
}

/// The number of the line that the position `pos` lies in: one more than
/// the number of line feeds before it.
pub open spec fn line_at(bytes: Seq<u8>, pos: int) -> int
    decreases pos,
{
    if pos <= 0 || pos > bytes.len() {
        1
    } else {
        line_at(bytes, pos - 1) + if bytes[pos - 1] == 0x0a {
            1int
        } else {
            0int
        }
    }
}

/// The column of the position `pos`: one more than the number of
/// characters between the start of its line and it. A character is counted
/// by its first byte.
pub open spec fn column_at(bytes: Seq<u8>, pos: int) -> int
    decreases pos,
{
    if pos <= 0 || pos > bytes.len() || bytes[pos - 1] == 0x0a {
        1
    } else {
        column_at(bytes, pos - 1) + if is_continuation_byte(bytes[pos - 1]) {
            0int
        } else {
            1int
        }
    }
}

/// The line and the column of the byte position `pos` of `text`, as
/// `pest::Position::new` and `Position::line_col` give them. There is
/// none where `pos` lies behind the end of the text or inside a character.
/// Lines are counted by line feeds and columns by characters, both from
/// one.
#[verifier::external_body]
pub(crate) fn position_line_col(text: &str, pos: usize) -> (res: Option<(usize, usize)>)
    ensures
        res is Some <==> is_char_boundary(text.spec_bytes(), pos as int),
        res matches Some((line, column)) ==> line == line_at(text.spec_bytes(), pos as int)
            && column == column_at(text.spec_bytes(), pos as int),
{
    match pest::Position::new(text, pos) {
        Some(position) => Some(position.line_col()),
        None => None,
    }
}

/// `n` times the byte `b`.
pub open spec fn repeat(b: u8, n: int) -> Seq<u8> {
    Seq::new(if n > 0 { n as nat } else { 0 }, |i: int| b)
}

/// Appends `n` times the byte `b`.
pub fn push_repeat(out: &mut Vec<u8>, b: u8, n: usize)
    ensures
        final(out)@ == old(out)@ + repeat(b, n as int),
{
    let mut i: usize = 0;
    assert(out@ =~= old(out)@ + repeat(b, 0));
    while i < n
        invariant
            i <= n,
            out@ == old(out)@ + repeat(b, i as int),
        decreases n - i,
    {
        out.push(b);
        i += 1;
        assert(out@ =~= old(out)@ + repeat(b, i as int));
    }
}

/// The decimal digits of `n`.
pub open spec fn decimal(n: nat) -> Seq<u8>
    decreases n,
{
    if n < 10 {
        seq![(0x30 + n) as u8]
    } else {
        decimal(n / 10).push((0x30 + n % 10) as u8)
    }
}

/// Appends the decimal digits of `n`.
pub fn push_decimal(out: &mut Vec<u8>, n: usize)
    ensures
        final(out)@ == old(out)@ + decimal(n as nat),
    decreases n,
{
    if n < 10 {
        out.push(0x30 + n as u8);
        assert(out@ =~= old(out)@ + decimal(n as nat));
    } else {
        push_decimal(out, n / 10);
        out.push(0x30 + (n % 10) as u8);
        assert(out@ =~= old(out)@ + decimal(n as nat));
    }
}

/// `text` with spaces in front where it is shorter than `width`.
pub open spec fn right_aligned(text: Seq<u8>, width: int) -> Seq<u8> {
    repeat(0x20, width - text.len()) + text
}

/// `text` with spaces behind where it is shorter than `width`.
pub open spec fn left_aligned(text: Seq<u8>, width: int) -> Seq<u8> {
    text + repeat(0x20, width - text.len())
}

/// Appends `text`, with spaces in front where it is shorter than `width`.
pub fn push_right_aligned(out: &mut Vec<u8>, text: &Vec<u8>, width: usize)
    ensures
        final(out)@ == old(out)@ + right_aligned(text@, width as int),
{
    let fill: usize = if text.len() < width { width - text.len() } else { 0 };
    push_repeat(out, 0x20, fill);
    push_slice(out, text.as_slice(), 0, text.len());
    assert(text@.subrange(0, text@.len() as int) =~= text@);
    assert(out@ =~= old(out)@ + right_aligned(text@, width as int));
}

/// Appends `text`, with spaces behind where it is shorter than `width`.
pub fn push_left_aligned(out: &mut Vec<u8>, text: &Vec<u8>, width: usize)
    ensures
        final(out)@ == old(out)@ + left_aligned(text@, width as int),
{
    let fill: usize = if text.len() < width { width - text.len() } else { 0 };
    push_slice(out, text.as_slice(), 0, text.len());
    push_repeat(out, 0x20, fill);
    assert(text@.subrange(0, text@.len() as int) =~= text@);
    assert(out@ =~= old(out)@ + left_aligned(text@, width as int));
}

/// Appends the bytes of `bytes` from `from` up to `to`.
pub fn push_slice(out: &mut Vec<u8>, bytes: &[u8], from: usize, to: usize)
    requires
        from <= to <= bytes@.len(),
    ensures
        final(out)@ == old(out)@ + bytes@.subrange(from as int, to as int),
{
    let mut i: usize = from;
    assert(out@ =~= old(out)@ + bytes@.subrange(from as int, from as int));
    while i < to
        invariant
            from <= i <= to <= bytes@.len(),
            out@ == old(out)@ + bytes@.subrange(from as int, i as int),
        decreases to - i,
    {
        out.push(bytes[i]);
        i += 1;
        assert(out@ =~= old(out)@ + bytes@.subrange(from as int, i as int));
    }
}

/// Appends the bytes of `text`.
pub fn push_str(out: &mut Vec<u8>, text: &str)
    ensures
        final(out)@ == old(out)@ + text.spec_bytes(),
{
    let bytes = text.as_bytes();
    push_slice(out, bytes, 0, bytes.len());
    assert(bytes@.subrange(0, bytes@.len() as int) =~= bytes@);
}

/// The characters of `digits` as bytes.
pub open spec fn ascii(digits: Seq<char>) -> Seq<u8> {
    Seq::new(digits.len(), |i: int| digits[i] as u8)
}

/// The hexadecimal digit of a number below 16, as a byte.
pub fn hex_byte(d: u8) -> (b: u8)
    requires
        d < 16,
    ensures
        b == hex_char(d as nat) as u8,
{
    if d < 10 {
        0x30 + d
    } else {
        0x41 + (d - 10)
    }
}

/// Appends the digits of `n` in base 16, at least `width` of them.
pub fn push_hex_number(out: &mut Vec<u8>, n: u64, width: usize)
    ensures
        final(out)@ == old(out)@ + ascii(hex_digits(n as nat, width as nat)),
    decreases n, width,
{
    if n < 16 && width <= 1 {
        out.push(hex_byte(n as u8));
        assert(out@ =~= old(out)@ + ascii(hex_digits(n as nat, width as nat)));
    } else {
        push_hex_number(out, n / 16, if width > 0 { width - 1 } else { 0 });
        out.push(hex_byte((n % 16) as u8));
        assert(out@ =~= old(out)@ + ascii(hex_digits(n as nat, width as nat)));
    }
}

} // verus!
