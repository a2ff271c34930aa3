//! From the bytes of a source file to its tokens.

use vstd::prelude::*;
use crate::ast::Span;

verus! {

/// A kind of token.
#[derive(Debug, Clone, Copy, PartialEq, Eq, Structural)]
pub enum TokenKind {
    /// A name: a letter or `_`, then letters, digits and `_`.
    Ident,
    /// A number, with its value.
    Number(i32),
    /// A string between two quotes of the same kind.
    Text,
    Newline,
    Comma,
    Colon,
    LParen,
    RParen,
    Hash,
    Plus,
    Minus,
    Star,
    Slash,
    Backslash,
    Amp,
    Pipe,
    Bang,
    Tilde,
    Shl,
    Shr,
    Dot,
}

/// A token, and where it is written.
#[derive(Debug, Clone, Copy, PartialEq, Eq, Structural)]
pub struct Token {
    pub kind: TokenKind,
    pub span: Span,
}

/// A part of the grammar, as a diagnostic names it.
#[derive(Debug, Clone, Copy, PartialEq, Eq, Structural)]
pub enum Rule {
    Character,
    Digit,
    Quote,
    Statement,
    Expression,
    Size,
    ClosingParenthesis,
    EndOfLine,
    Path,
}

/// What is wrong with a text that does not parse.
#[derive(Debug, Clone, Copy, PartialEq, Eq, Structural)]
pub enum ParseProblem {
    /// This part of the grammar was expected.
    Expected(Rule),
    /// This part of the grammar was found where it cannot stand.
    Unexpected(Rule),
    /// A number does not fit in 32 bits.
    LiteralOverflow,
}

/// Where an error points: at one position, or at a range of bytes.
#[derive(Debug, Clone, Copy, PartialEq, Eq, Structural)]
pub enum ErrorLocation {
    Single(usize),
    Span(usize, usize),
}

/// Why a text does not parse, and where.
#[derive(Debug, Clone, Copy, PartialEq, Eq, Structural)]
pub struct ParseError {
    pub problem: ParseProblem,
    pub location: ErrorLocation,
}

/// A class of bytes.
#[derive(Debug, Clone, Copy, PartialEq, Eq, Structural)]
pub enum Class {
    /// Letters, digits and `_`.
    Name,
    /// The digits of the given base: 2, 8, 10 or 16.
    Digit(u8),
    /// Every byte but the line feed.
    InLine,
    /// Every byte but the line feed and the given quote.
    Quoted(u8),
}

/// Whether `b` is a letter or `_`.
pub open spec fn is_name_start(b: u8) -> bool {
    (0x41 <= b && b <= 0x5a) || (0x61 <= b && b <= 0x7a) || b == 0x5f
}

/// The value of `b` as a digit; 255 where it is none.
pub open spec fn digit_value(b: u8) -> u8 {
    if 0x30 <= b && b <= 0x39 {
        (b - 0x30) as u8
    } else if 0x41 <= b && b <= 0x46 {
        (b - 0x41 + 10) as u8
    } else if 0x61 <= b && b <= 0x66 {
        (b - 0x61 + 10) as u8
    } else {
        255
    }
}

impl Class {
    /// Whether `b` belongs to the class.
    pub open spec fn holds(self, b: u8) -> bool {
        match self {
            Class::Name => is_name_start(b) || (0x30 <= b && b <= 0x39),
            Class::Digit(base) => digit_value(b) < base,
            Class::InLine => b != 0x0a,
            Class::Quoted(quote) => b != 0x0a && b != quote,
        }
    }

    /// Whether `b` belongs to the class.
    pub fn test(&self, b: u8) -> (res: bool)
        ensures
            res == self.holds(b),
    {
        match self {
            Class::Name => name_start(b) || (0x30 <= b && b <= 0x39),
            Class::Digit(base) => digit(b) < *base,
            Class::InLine => b != 0x0a,
            Class::Quoted(quote) => b != 0x0a && b != *quote,
        }
    }
}

/// Whether `b` is a letter or `_`.
pub fn name_start(b: u8) -> (res: bool)
    ensures
        res == is_name_start(b),
{
    (0x41 <= b && b <= 0x5a) || (0x61 <= b && b <= 0x7a) || b == 0x5f
}

/// The value of `b` as a digit; 255 where it is none.
pub fn digit(b: u8) -> (res: u8)
    ensures
        res == digit_value(b),
{
    if 0x30 <= b && b <= 0x39 {
        b - 0x30
    } else if 0x41 <= b && b <= 0x46 {
        b - 0x41 + 10
    } else if 0x61 <= b && b <= 0x66 {
        b - 0x61 + 10
    } else {
        255
    }
}

/// What is left of a text of the length `len` behind the position `pos`.
pub open spec fn remaining(len: nat, pos: int) -> nat {
    if 0 <= pos <= len {
        (len - pos) as nat
    } else {
        0
    }
}

/// The number of bytes of the class from `from` on.
pub open spec fn run_len(bytes: Seq<u8>, from: int, class: Class) -> nat
    decreases remaining(bytes.len(), from),
{
    if 0 <= from < bytes.len() && class.holds(bytes[from]) {
        1 + run_len(bytes, from + 1, class)
    } else {
        0
    }
}

/// The position behind the bytes of the class from `from` on.
pub fn skip_run(bytes: &[u8], from: usize, class: Class) -> (end: usize)
    requires
        from <= bytes@.len(),
    ensures
        end == from + run_len(bytes@, from as int, class),
        from <= end <= bytes@.len(),
{
    let mut i: usize = from;
    while i < bytes.len() && class.test(bytes[i])
        invariant
            from <= i <= bytes@.len(),
            from + run_len(bytes@, from as int, class) == i + run_len(bytes@, i as int, class),
        decreases bytes@.len() - i,
    {
        i += 1;
    }
    i
}

/// The number that the digits from `from` up to `to` stand for in the base
/// `base`.
pub open spec fn number_value(bytes: Seq<u8>, from: int, to: int, base: u8) -> nat
    decreases to - from,
{
    if to <= from || to > bytes.len() || from < 0 {
        0
    } else {
        number_value(bytes, from, to - 1, base) * (base as nat) + digit_value(bytes[to - 1]) as nat
    }
}

/// The value of a literal whose digits stand for `v`: `v` itself where it
/// is a signed 32-bit number, else the signed 32-bit number with the same
/// 32 bits; none where `v` has more than 32 bits.
pub open spec fn literal_value(v: nat) -> Option<i32> {
    if v <= i32::MAX {
        Some(v as i32)
    } else if v <= u32::MAX {
        Some((v - 0x1_0000_0000) as i32)
    } else {
        None
    }
}

/// The value of the literal whose digits lie from `from` up to `to`.
pub fn read_number(bytes: &[u8], from: usize, to: usize, base: u8) -> (res: Option<i32>)
    requires
        from <= to <= bytes@.len(),
        base == 2 || base == 8 || base == 10 || base == 16,
        forall|i: int| from <= i < to ==> digit_value(#[trigger] bytes@[i]) < base,
    ensures
        res == literal_value(number_value(bytes@, from as int, to as int, base)),
{
    let mut acc: u64 = 0;
    let mut i: usize = from;
    while i < to
        invariant
            from <= i <= to <= bytes@.len(),
            base == 2 || base == 8 || base == 10 || base == 16,
            forall|j: int| from <= j < to ==> digit_value(#[trigger] bytes@[j]) < base,
            acc <= 0x1_0000_0000,
            acc == 0x1_0000_0000 <==> number_value(bytes@, from as int, i as int, base) > u32::MAX,
            acc < 0x1_0000_0000 ==> acc == number_value(bytes@, from as int, i as int, base),
        decreases to - i,
    {
        let d: u64 = digit(bytes[i]) as u64;
        let ghost before = number_value(bytes@, from as int, i as int, base);
        assert(number_value(bytes@, from as int, i + 1, base) == before * (base as nat) + d);
        assert(before > u32::MAX ==> before * (base as nat) + d > u32::MAX) by {
            if base == 2 {
            } else if base == 8 {
            } else if base == 10 {
            } else {
            }
        }
        if acc < 0x1_0000_0000 {
            acc = acc * (base as u64) + d;
            if acc > 0xffff_ffff {
                acc = 0x1_0000_0000;
            }
        }
        i += 1;
    }
    if acc <= 0x7fff_ffff {
        Some(acc as i32)
    } else if acc <= 0xffff_ffff {
        Some((acc as i64 - 0x1_0000_0000) as i32)
    } else {
        None
    }
}

/// A token that starts at a given position: its kind, and the number of
/// bytes that follow its first byte.
pub struct Scanned {
    pub kind: TokenKind,
    pub more: nat,
}

/// The token that a number in the base `base` makes, whose digits start at
/// `from`.
pub open spec fn number_at(bytes: Seq<u8>, start: int, from: int, base: u8) -> Result<
    Scanned,
    ParseError,
> {
    let digits = run_len(bytes, from, Class::Digit(base));
    if digits == 0 {
        Err(
            ParseError {
                problem: ParseProblem::Expected(Rule::Digit),
                location: ErrorLocation::Single(from as usize),
            },
        )
    } else {
        match literal_value(number_value(bytes, from, from + digits, base)) {
            Some(v) => Ok(
                Scanned { kind: TokenKind::Number(v), more: (from + digits - start - 1) as nat },
            ),
            None => Err(
                ParseError {
                    problem: ParseProblem::LiteralOverflow,
                    location: ErrorLocation::Span(start as usize, (from + digits) as usize),
                },
            ),
        }
    }
}

/// The token of one byte that `b` makes, where it makes one.
pub open spec fn single(b: u8) -> Option<TokenKind> {
    if b == 0x0a {
        Some(TokenKind::Newline)
    } else if b == 0x2c {
        Some(TokenKind::Comma)
    } else if b == 0x3a {
        Some(TokenKind::Colon)
    } else if b == 0x28 {
        Some(TokenKind::LParen)
    } else if b == 0x29 {
        Some(TokenKind::RParen)
    } else if b == 0x23 {
        Some(TokenKind::Hash)
    } else if b == 0x2b {
        Some(TokenKind::Plus)
    } else if b == 0x2d {
        Some(TokenKind::Minus)
    } else if b == 0x2a {
        Some(TokenKind::Star)
    } else if b == 0x2f {
        Some(TokenKind::Slash)
    } else if b == 0x5c {
        Some(TokenKind::Backslash)
    } else if b == 0x26 {
        Some(TokenKind::Amp)
    } else if b == 0x7c {
        Some(TokenKind::Pipe)
    } else if b == 0x21 {
        Some(TokenKind::Bang)
    } else if b == 0x7e {
        Some(TokenKind::Tilde)
    } else if b == 0x2e {
        Some(TokenKind::Dot)
    } else {
        None
    }
}

/// The token that starts at `pos`, which holds neither a blank nor the
/// start of a comment.
///
/// A name runs as far as letters, digits and `_` go. A number is written
/// in decimal, or in hexadecimal behind `$`, in octal behind `@`, in binary
/// behind `%`. A string runs from a quote to the next quote of its kind in
/// the line. `<<` and `>>` are the shifts; the other tokens are one byte.
pub open spec fn token_at(bytes: Seq<u8>, pos: int) -> Result<Scanned, ParseError> {
    let b = bytes[pos];
    if is_name_start(b) {
        Ok(Scanned { kind: TokenKind::Ident, more: run_len(bytes, pos + 1, Class::Name) })
    } else if 0x30 <= b && b <= 0x39 {
        number_at(bytes, pos, pos, 10)
    } else if b == 0x24 {
        number_at(bytes, pos, pos + 1, 16)
    } else if b == 0x40 {
        number_at(bytes, pos, pos + 1, 8)
    } else if b == 0x25 {
        number_at(bytes, pos, pos + 1, 2)
    } else if b == 0x27 || b == 0x22 {
        let inside = run_len(bytes, pos + 1, Class::Quoted(b));
        if pos + 1 + inside < bytes.len() && bytes[pos + 1 + inside] == b {
            Ok(Scanned { kind: TokenKind::Text, more: inside + 1 })
        } else {
            Err(
                ParseError {
                    problem: ParseProblem::Expected(Rule::Quote),
                    location: ErrorLocation::Single((pos + 1 + inside) as usize),
                },
            )
        }
    } else if b == 0x3c || b == 0x3e {
        if pos + 1 < bytes.len() && bytes[pos + 1] == b {
            Ok(
                Scanned {
                    kind: if b == 0x3c {
                        TokenKind::Shl
                    } else {
                        TokenKind::Shr
                    },
                    more: 1,
                },
            )
        } else {
            Err(
                ParseError {
                    problem: ParseProblem::Unexpected(Rule::Character),
                    location: ErrorLocation::Single(pos as usize),
                },
            )
        }
    } else {
        match single(b) {
            Some(kind) => Ok(Scanned { kind, more: 0 }),
            None => Err(
                ParseError {
                    problem: ParseProblem::Unexpected(Rule::Character),
                    location: ErrorLocation::Single(pos as usize),
                },
            ),
        }
    }
}

/// Whether `b` is a blank within a line: a space, a tab, a vertical tab, a
/// form feed or a carriage return.
pub open spec fn is_inline_blank(b: u8) -> bool {
    b == 0x20 || b == 0x09 || b == 0x0b || b == 0x0c || b == 0x0d
}

/// The tokens of the text from `pos` on. Blanks within a line separate
/// tokens, and a comment runs from `;` to the end of its line.
pub open spec fn tokens_from(bytes: Seq<u8>, pos: int) -> Result<Seq<Token>, ParseError>
    decreases remaining(bytes.len(), pos),
{
    if pos < 0 || pos >= bytes.len() {
        Ok(Seq::empty())
    } else if is_inline_blank(bytes[pos]) {
        tokens_from(bytes, pos + 1)
    } else if bytes[pos] == 0x3b {
        tokens_from(bytes, pos + 1 + run_len(bytes, pos + 1, Class::InLine))
    } else {
        match token_at(bytes, pos) {
            Err(e) => Err(e),
            Ok(scanned) => match tokens_from(bytes, pos + 1 + scanned.more) {
                Err(e) => Err(e),
                Ok(rest) => Ok(
                    seq![
                        Token {
                            kind: scanned.kind,
                            span: Span { start: pos as usize, end: (pos + 1 + scanned.more) as usize },
                        },
                    ] + rest,
                ),
            },
        }
    }
}

/// The tokens of a text.
pub open spec fn tokens_of(bytes: Seq<u8>) -> Result<Seq<Token>, ParseError> {
    tokens_from(bytes, 0)
}

/// Every byte of a run belongs to the class.
pub proof fn lemma_run_holds(bytes: Seq<u8>, from: int, class: Class, i: int)
    requires
        0 <= from <= i < from + run_len(bytes, from, class),
    ensures
        i < bytes.len(),
        class.holds(bytes[i]),
    decreases i - from,
{
    if i > from {
        lemma_run_holds(bytes, from + 1, class, i);
    }
}

fn scan_number(bytes: &[u8], start: usize, from: usize, base: u8) -> (res: Result<
    (TokenKind, usize),
    ParseError,
>)
    requires
        start <= from <= bytes@.len(),
        from <= start + 1,
        start < bytes@.len(),
        base == 2 || base == 8 || base == 10 || base == 16,
    ensures
        match res {
            Ok((kind, end)) => start < end <= bytes@.len() && number_at(
                bytes@,
                start as int,
                from as int,
                base,
            ) == Ok::<Scanned, ParseError>(Scanned { kind, more: (end - start - 1) as nat }),
            Err(e) => number_at(bytes@, start as int, from as int, base) == Err::<
                Scanned,
                ParseError,
            >(e),
        },
{
    let end: usize = skip_run(bytes, from, Class::Digit(base));
    if end == from {
        return Err(
            ParseError {
                problem: ParseProblem::Expected(Rule::Digit),
                location: ErrorLocation::Single(from),
            },
        );
    }
    assert forall|i: int| from <= i < end implies digit_value(#[trigger] bytes@[i]) < base by {
        lemma_run_holds(bytes@, from as int, Class::Digit(base), i);
    }
    match read_number(bytes, from, end, base) {
        Some(v) => Ok((TokenKind::Number(v), end)),
        None => Err(
            ParseError {
                problem: ParseProblem::LiteralOverflow,
                location: ErrorLocation::Span(start, end),
            },
        ),
    }
}

fn single_token(b: u8) -> (res: Option<TokenKind>)
    ensures
        res == single(b),
{
    if b == 0x0a {
        Some(TokenKind::Newline)
    } else if b == 0x2c {
        Some(TokenKind::Comma)
    } else if b == 0x3a {
        Some(TokenKind::Colon)
    } else if b == 0x28 {
        Some(TokenKind::LParen)
    } else if b == 0x29 {
        Some(TokenKind::RParen)
    } else if b == 0x23 {
        Some(TokenKind::Hash)
    } else if b == 0x2b {
        Some(TokenKind::Plus)
    } else if b == 0x2d {
        Some(TokenKind::Minus)
    } else if b == 0x2a {
        Some(TokenKind::Star)
    } else if b == 0x2f {
        Some(TokenKind::Slash)
    } else if b == 0x5c {
        Some(TokenKind::Backslash)
    } else if b == 0x26 {
        Some(TokenKind::Amp)
    } else if b == 0x7c {
        Some(TokenKind::Pipe)
    } else if b == 0x21 {
        Some(TokenKind::Bang)
    } else if b == 0x7e {
        Some(TokenKind::Tilde)
    } else if b == 0x2e {
        Some(TokenKind::Dot)
    } else {
        None
    }
}

/// The token that starts at `pos`, and the position behind it.
pub fn scan_token(bytes: &[u8], pos: usize) -> (res: Result<(TokenKind, usize), ParseError>)
    requires
        pos < bytes@.len(),
    ensures
        match res {
            Ok((kind, end)) => pos < end <= bytes@.len() && token_at(bytes@, pos as int) == Ok::<
                Scanned,
                ParseError,
            >(Scanned { kind, more: (end - pos - 1) as nat }),
            Err(e) => token_at(bytes@, pos as int) == Err::<Scanned, ParseError>(e),
        },
{
    let b: u8 = bytes[pos];
    if name_start(b) {
        let end: usize = skip_run(bytes, pos + 1, Class::Name);
        Ok((TokenKind::Ident, end))
    } else if 0x30 <= b && b <= 0x39 {
        scan_number(bytes, pos, pos, 10)
    } else if b == 0x24 {
        scan_number(bytes, pos, pos + 1, 16)
    } else if b == 0x40 {
        scan_number(bytes, pos, pos + 1, 8)
    } else if b == 0x25 {
        scan_number(bytes, pos, pos + 1, 2)
    } else if b == 0x27 || b == 0x22 {
        let close: usize = skip_run(bytes, pos + 1, Class::Quoted(b));
        if close < bytes.len() && bytes[close] == b {
            Ok((TokenKind::Text, close + 1))
        } else {
            Err(
                ParseError {
                    problem: ParseProblem::Expected(Rule::Quote),
                    location: ErrorLocation::Single(close),
                },
            )
        }
    } else if b == 0x3c || b == 0x3e {
        if pos + 1 < bytes.len() && bytes[pos + 1] == b {
            Ok((if b == 0x3c { TokenKind::Shl } else { TokenKind::Shr }, pos + 2))
        } else {
            Err(
                ParseError {
                    problem: ParseProblem::Unexpected(Rule::Character),
                    location: ErrorLocation::Single(pos),
                },
            )
        }
    } else {
        match single_token(b) {
            Some(kind) => Ok((kind, pos + 1)),
            None => Err(
                ParseError {
                    problem: ParseProblem::Unexpected(Rule::Character),
                    location: ErrorLocation::Single(pos),
                },
            ),
        }
    }
}

/// Whether `b` is a blank within a line.
pub fn inline_blank(b: u8) -> (res: bool)
    ensures
        res == is_inline_blank(b),
{
    b == 0x20 || b == 0x09 || b == 0x0b || b == 0x0c || b == 0x0d
}

/// The tokens that `so_far` and the tokens of the rest of the text make.
pub open spec fn continued(so_far: Seq<Token>, rest: Result<Seq<Token>, ParseError>) -> Result<
    Seq<Token>,
    ParseError,
> {
    match rest {
        Ok(tokens) => Ok(so_far + tokens),
        Err(e) => Err(e),
    }
}

/// What a result of `tokenize` stands for.
pub open spec fn tokens_view(res: Result<Vec<Token>, ParseError>) -> Result<Seq<Token>, ParseError> {
    match res {
        Ok(tokens) => Ok(tokens@),
        Err(e) => Err(e),
    }
}

/// The tokens of a text.
pub fn tokenize(bytes: &[u8]) -> (res: Result<Vec<Token>, ParseError>)
    ensures
        tokens_view(res) == tokens_of(bytes@),
        res matches Ok(tokens) ==> forall|i: int|
            0 <= i < tokens@.len() ==> (#[trigger] tokens@[i]).span.start < tokens@[i].span.end
                <= bytes@.len(),
{
    let mut out: Vec<Token> = Vec::new();
    let mut pos: usize = 0;
    assert(continued(out@, tokens_from(bytes@, 0)) == tokens_of(bytes@)) by {
        match tokens_from(bytes@, 0) {
            Ok(tokens) => {
                assert(out@ + tokens =~= tokens);
            },
            Err(_) => {},
        }
    }
    while pos < bytes.len()
        invariant
            pos <= bytes@.len(),
            continued(out@, tokens_from(bytes@, pos as int)) == tokens_of(bytes@),
            forall|i: int|
                0 <= i < out@.len() ==> (#[trigger] out@[i]).span.start < out@[i].span.end
                    <= bytes@.len(),
        decreases bytes@.len() - pos,
    {
        let b: u8 = bytes[pos];
        if inline_blank(b) {
            pos += 1;
        } else if b == 0x3b {
            pos = skip_run(bytes, pos + 1, Class::InLine);
        } else {
            match scan_token(bytes, pos) {
                Err(e) => {
                    return Err(e);
                },
                Ok((kind, end)) => {
                    let token = Token { kind, span: Span { start: pos, end } };
                    let ghost before = out@;
                    out.push(token);
                    proof {
                        match tokens_from(bytes@, end as int) {
                            Ok(rest) => {
                                assert(out@ + rest =~= before + (seq![token] + rest));
                            },
                            Err(_) => {},
                        }
                    }
                    pos = end;
                },
            }
        }
    }
    proof {
        assert(out@ + Seq::<Token>::empty() =~= out@);
    }
    Ok(out)
}

} // verus!
