//! Numbers written in upper-case hexadecimal.

use vstd::prelude::*;

verus! {

/// Appends `c` to `s`; std documents `String::push` as doing so.
pub assume_specification[ String::push ](s: &mut String, c: char)
    ensures
        final(s)@ == old(s)@.push(c),
;

/// The hexadecimal digit of a number below 16.
pub open spec fn hex_char(d: nat) -> char {
    if d == 0 {
        '0'
    } else if d == 1 {
        '1'
    } else if d == 2 {
        '2'
    } else if d == 3 {
        '3'
    } else if d == 4 {
        '4'
    } else if d == 5 {
        '5'
    } else if d == 6 {
        '6'
    } else if d == 7 {
        '7'
    } else if d == 8 {
        '8'
    } else if d == 9 {
        '9'
    } else if d == 10 {
        'A'
    } else if d == 11 {
        'B'
    } else if d == 12 {
        'C'
    } else if d == 13 {
        'D'
    } else if d == 14 {
        'E'
    } else {
        'F'
    }
}

/// The digits of `n` in base 16, most significant first, with zeros in
/// front where there are fewer than `width`.
pub open spec fn hex_digits(n: nat, width: nat) -> Seq<char>
    decreases n, width,
{
    if n < 16 && width <= 1 {
        seq![hex_char(n)]
    } else {
        hex_digits(n / 16, if width > 0 { (width - 1) as nat } else { 0 }).push(hex_char(n % 16))
    }
}

/// Each byte as two hexadecimal digits.
pub open spec fn hex_bytes(bytes: Seq<u8>) -> Seq<char>
    decreases bytes.len(),
{
    if bytes.len() == 0 {
        Seq::empty()
    } else {
        hex_bytes(bytes.drop_last()) + hex_digits(bytes.last() as nat, 2)
    }
}

/// The hexadecimal digit of a number below 16.
pub fn hex_digit(d: u8) -> (c: char)
    requires
        d < 16,
    ensures
        c == hex_char(d as nat),
{
    if d == 0 {
        '0'
    } else if d == 1 {
        '1'
    } else if d == 2 {
        '2'
    } else if d == 3 {
        '3'
    } else if d == 4 {
        '4'
    } else if d == 5 {
        '5'
    } else if d == 6 {
        '6'
    } else if d == 7 {
        '7'
    } else if d == 8 {
        '8'
    } else if d == 9 {
        '9'
    } else if d == 10 {
        'A'
    } else if d == 11 {
        'B'
    } else if d == 12 {
        'C'
    } else if d == 13 {
        'D'
    } else if d == 14 {
        'E'
    } else {
        'F'
    }
}

/// Appends the digits of `n` in base 16 to `out`, at least `width` of them.
pub fn push_hex(out: &mut String, n: u128, width: usize)
    ensures
        final(out)@ == old(out)@ + hex_digits(n as nat, width as nat),
    decreases n, width,
{
    if n < 16 && width <= 1 {
        out.push(hex_digit(n as u8));
        assert(out@ =~= old(out)@ + hex_digits(n as nat, width as nat));
    } else {
        push_hex(out, n / 16, if width > 0 { width - 1 } else { 0 });
        out.push(hex_digit((n % 16) as u8));
        assert(out@ =~= old(out)@ + hex_digits(n as nat, width as nat));
    }
}

/// Appends each byte of `bytes[from..to]` to `out` as two hexadecimal
/// digits.
pub fn push_hex_bytes(out: &mut String, bytes: &[u8], from: usize, to: usize)
    requires
        from <= to <= bytes@.len(),
    ensures
        final(out)@ == old(out)@ + hex_bytes(bytes@.subrange(from as int, to as int)),
{
    let mut i: usize = from;
    assert(bytes@.subrange(from as int, from as int) =~= Seq::<u8>::empty());
    while i < to
        invariant
            from <= i <= to <= bytes@.len(),
            out@ == old(out)@ + hex_bytes(bytes@.subrange(from as int, i as int)),
        decreases to - i,
    {
        assert(bytes@.subrange(from as int, i + 1).drop_last() =~= bytes@.subrange(
            from as int,
            i as int,
        ));
        let ghost before = out@;
        push_hex(out, bytes[i] as u128, 2);
        i += 1;
        assert(out@ =~= old(out)@ + hex_bytes(bytes@.subrange(from as int, i as int)));
    }
}

} // verus!
