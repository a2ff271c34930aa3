//! From the tokens of a source file to its statements.

use vstd::prelude::*;
use vstd::string::*;
use crate::addressing::{An, Dn};
use crate::ast::{
    BinaryOp,
    Body,
    BodyView,
    DataItem,
    DataItemView,
    Directive,
    DirectiveView,
    Expression,
    ExpressionView,
    Label,
    LabelView,
    Mnemonic,
    Operand,
    OperandView,
    Operation,
    OperationView,
    Span,
    Statement,
    StatementView,
    UnaryOp,
};
use crate::codegen::{size_or_word, to_size_or_word};
use crate::instruction::Condition;
use crate::lexer::{
    remaining,
    tokenize,
    tokens_of,
    ErrorLocation,
    ParseError,
    ParseProblem,
    Rule,
    Token,
    TokenKind,
};
use crate::size::IntSize;

verus! {

/// What was parsed, and the number of tokens that it took.
pub struct Parsed<T> {
    pub value: T,
    pub used: nat,
}

/// Whether every token lies within a text of the length `len`.
pub open spec fn tokens_fit(ts: Seq<Token>, len: nat) -> bool {
    forall|i: int| 0 <= i < ts.len() ==> (#[trigger] ts[i]).span.start < ts[i as int].span.end <= len
}

/// The kind of the `i`-th token, where there is one.
pub open spec fn kind_at(ts: Seq<Token>, i: nat) -> Option<TokenKind> {
    if i < ts.len() {
        Some(ts[i as int].kind)
    } else {
        None
    }
}

/// Where the `i`-th token is written; the end of the text, of the length
/// `end`, where there is none.
pub open spec fn location_at(ts: Seq<Token>, end: usize, i: nat) -> ErrorLocation {
    if i < ts.len() {
        ErrorLocation::Span(ts[i as int].span.start, ts[i as int].span.end)
    } else {
        ErrorLocation::Single(end)
    }
}

/// The error that `rule` was expected at the `i`-th token.
pub open spec fn expected(rule: Rule, ts: Seq<Token>, end: usize, i: nat) -> ParseError {
    ParseError { problem: ParseProblem::Expected(rule), location: location_at(ts, end, i) }
}

/// The characters that are written at `span`.
pub open spec fn name_of(bytes: Seq<u8>, span: Span) -> Seq<char> {
    Seq::new((span.end - span.start) as nat, |k: int| bytes[span.start + k] as char)
}

/// The binary operator that a token of the kind `kind` is at the level
/// `level` of precedence. The levels, from the loosest: sum and
/// difference; product, quotient and remainder; the bitwise and and or;
/// the shifts.
pub open spec fn binary_op(kind: TokenKind, level: nat) -> Option<BinaryOp> {
    if level == 0 {
        match kind {
            TokenKind::Plus => Some(BinaryOp::Add),
            TokenKind::Minus => Some(BinaryOp::Sub),
            _ => None,
        }
    } else if level == 1 {
        match kind {
            TokenKind::Star => Some(BinaryOp::Mul),
            TokenKind::Slash => Some(BinaryOp::Div),
            TokenKind::Backslash => Some(BinaryOp::Mod),
            _ => None,
        }
    } else if level == 2 {
        match kind {
            TokenKind::Amp => Some(BinaryOp::And),
            TokenKind::Pipe => Some(BinaryOp::Or),
            TokenKind::Bang => Some(BinaryOp::Or),
            _ => None,
        }
    } else if level == 3 {
        match kind {
            TokenKind::Shl => Some(BinaryOp::Shl),
            TokenKind::Shr => Some(BinaryOp::Shr),
            _ => None,
        }
    } else {
        None
    }
}

/// The binary operator that the `i`-th token is at the level `level`.
pub open spec fn binary_op_at(ts: Seq<Token>, i: nat, level: nat) -> Option<BinaryOp> {
    match kind_at(ts, i) {
        Some(kind) => binary_op(kind, level),
        None => None,
    }
}

/// The unary operator that a token of the kind `kind` is.
pub open spec fn unary_op(kind: Option<TokenKind>) -> Option<UnaryOp> {
    match kind {
        Some(TokenKind::Minus) => Some(UnaryOp::Neg),
        Some(TokenKind::Tilde) => Some(UnaryOp::Not),
        _ => None,
    }
}

/// The rank of the expressions of the level `level` among the parts of the
/// grammar of expressions.
pub open spec fn rank(level: nat) -> nat {
    if level < 4 {
        (10 - level) as nat
    } else {
        3
    }
}

/// A number, a symbol, or an expression between parentheses, from the
/// `i`-th token on.
pub open spec fn primary(ts: Seq<Token>, bytes: Seq<u8>, i: nat) -> Result<
    Parsed<ExpressionView>,
    ParseError,
>
    decreases remaining(ts.len(), i as int), 1nat,
{
    match kind_at(ts, i) {
        Some(TokenKind::Number(v)) => Ok(Parsed { value: ExpressionView::Literal(v), used: 1 }),
        Some(TokenKind::Ident) => Ok(
            Parsed {
                value: ExpressionView::Symbol(name_of(bytes, ts[i as int].span), ts[i as int].span),
                used: 1,
            },
        ),
        Some(TokenKind::LParen) => match binary(ts, bytes, i + 1, 0) {
            Err(e) => Err(e),
            Ok(inner) => if kind_at(ts, i + 1 + inner.used) == Some(TokenKind::RParen) {
                Ok(Parsed { value: inner.value, used: inner.used + 2 })
            } else {
                Err(
                    expected(
                        Rule::ClosingParenthesis,
                        ts,
                        bytes.len() as usize,
                        i + 1 + inner.used,
                    ),
                )
            },
        },
        _ => Err(expected(Rule::Expression, ts, bytes.len() as usize, i)),
    }
}

/// A primary expression behind any number of `-` and `~`.
pub open spec fn unary(ts: Seq<Token>, bytes: Seq<u8>, i: nat) -> Result<
    Parsed<ExpressionView>,
    ParseError,
>
    decreases remaining(ts.len(), i as int), 2nat,
{
    match unary_op(kind_at(ts, i)) {
        Some(op) => match unary(ts, bytes, i + 1) {
            Err(e) => Err(e),
            Ok(inner) => Ok(
                Parsed {
                    value: ExpressionView::Unary(op, Box::new(inner.value)),
                    used: inner.used + 1,
                },
            ),
        },
        None => primary(ts, bytes, i),
    }
}

/// An expression of the level `level` from the `i`-th token on: one of the
/// next level, and as long as an operator of the level follows, one more.
/// The operators of a level group from the left, but for the shifts, which
/// group from the right.
pub open spec fn binary(ts: Seq<Token>, bytes: Seq<u8>, i: nat, level: nat) -> Result<
    Parsed<ExpressionView>,
    ParseError,
>
    decreases remaining(ts.len(), i as int), rank(level),
{
    if level >= 4 {
        unary(ts, bytes, i)
    } else {
        match binary(ts, bytes, i, level + 1) {
            Err(e) => Err(e),
            Ok(first) => tail(ts, bytes, i + first.used, level, first.value, first.used),
        }
    }
}

/// The expression of the level `level` that starts with `lhs`, which took
/// `used` tokens and ends before the `j`-th.
pub open spec fn tail(
    ts: Seq<Token>,
    bytes: Seq<u8>,
    j: nat,
    level: nat,
    lhs: ExpressionView,
    used: nat,
) -> Result<Parsed<ExpressionView>, ParseError>
    decreases remaining(ts.len(), j as int), 0nat,
{
    match binary_op_at(ts, j, level) {
        None => Ok(Parsed { value: lhs, used }),
        Some(op) => if level == 3 {
            match binary(ts, bytes, j + 1, 3) {
                Err(e) => Err(e),
                Ok(rhs) => Ok(
                    Parsed {
                        value: ExpressionView::Binary(op, Box::new(lhs), Box::new(rhs.value)),
                        used: used + 1 + rhs.used,
                    },
                ),
            }
        } else {
            match binary(ts, bytes, j + 1, level + 1) {
                Err(e) => Err(e),
                Ok(rhs) => tail(
                    ts,
                    bytes,
                    j + 1 + rhs.used,
                    level,
                    ExpressionView::Binary(op, Box::new(lhs), Box::new(rhs.value)),
                    used + 1 + rhs.used,
                ),
            }
        },
    }
}

/// An expression from the `i`-th token on.
pub open spec fn expression(ts: Seq<Token>, bytes: Seq<u8>, i: nat) -> Result<
    Parsed<ExpressionView>,
    ParseError,
> {
    binary(ts, bytes, i, 0)
}

/// The characters that are written at `span`.
pub fn read_name(bytes: &[u8], span: Span) -> (name: String)
    requires
        span.start <= span.end <= bytes@.len(),
    ensures
        name@ == name_of(bytes@, span),
{
    let mut name = String::new();
    let mut i: usize = span.start;
    while i < span.end
        invariant
            span.start <= i <= span.end <= bytes@.len(),
            name@ == name_of(bytes@, Span { start: span.start, end: i }),
        decreases span.end - i,
    {
        name.push(bytes[i] as char);
        i += 1;
        assert(name@ =~= name_of(bytes@, Span { start: span.start, end: i }));
    }
    assert(name@ =~= name_of(bytes@, span));
    name
}

/// The kind of the `i`-th token, where there is one.
pub fn peek(ts: &Vec<Token>, i: usize) -> (kind: Option<TokenKind>)
    ensures
        kind == kind_at(ts@, i as nat),
        kind is Some <==> i < ts@.len(),
        kind is Some ==> i < usize::MAX,
{
    if i < ts.len() {
        Some(ts[i].kind)
    } else {
        None
    }
}

/// The error that `rule` was expected at the `i`-th token.
pub fn expect(rule: Rule, ts: &Vec<Token>, end: usize, i: usize) -> (e: ParseError)
    ensures
        e == expected(rule, ts@, end, i as nat),
{
    ParseError {
        problem: ParseProblem::Expected(rule),
        location: if i < ts.len() {
            ErrorLocation::Span(ts[i].span.start, ts[i].span.end)
        } else {
            ErrorLocation::Single(end)
        },
    }
}

fn to_binary_op(kind: Option<TokenKind>, level: usize) -> (op: Option<BinaryOp>)
    ensures
        op == match kind {
            Some(k) => binary_op(k, level as nat),
            None => None,
        },
        op is Some ==> kind is Some,
{
    match kind {
        None => None,
        Some(kind) => {
            if level == 0 {
                match kind {
                    TokenKind::Plus => Some(BinaryOp::Add),
                    TokenKind::Minus => Some(BinaryOp::Sub),
                    _ => None,
                }
            } else if level == 1 {
                match kind {
                    TokenKind::Star => Some(BinaryOp::Mul),
                    TokenKind::Slash => Some(BinaryOp::Div),
                    TokenKind::Backslash => Some(BinaryOp::Mod),
                    _ => None,
                }
            } else if level == 2 {
                match kind {
                    TokenKind::Amp => Some(BinaryOp::And),
                    TokenKind::Pipe => Some(BinaryOp::Or),
                    TokenKind::Bang => Some(BinaryOp::Or),
                    _ => None,
                }
            } else if level == 3 {
                match kind {
                    TokenKind::Shl => Some(BinaryOp::Shl),
                    TokenKind::Shr => Some(BinaryOp::Shr),
                    _ => None,
                }
            } else {
                None
            }
        },
    }
}

/// A number, a symbol, or an expression between parentheses, from the
/// `i`-th token on, and the index of the token behind it.
pub fn parse_primary(ts: &Vec<Token>, bytes: &[u8], i: usize) -> (res: Result<
    (Expression, usize),
    ParseError,
>)
    requires
        tokens_fit(ts@, bytes@.len()),
    ensures
        parsed_as(res, i) == primary(ts@, bytes@, i as nat),
        res matches Ok((_, next)) ==> i < next <= ts@.len(),
    decreases remaining(ts@.len(), i as int), 1nat,
{
    let kind = peek(ts, i);
    match kind {
        Some(TokenKind::Number(v)) => Ok((Expression::Literal(v), i + 1)),
        Some(TokenKind::Ident) => Ok(
            (Expression::Symbol(read_name(bytes, ts[i].span), ts[i].span), i + 1),
        ),
        Some(TokenKind::LParen) => match parse_binary(ts, bytes, i + 1, 0) {
            Err(e) => Err(e),
            Ok((inner, next)) => {
                if next < ts.len() && ts[next].kind == TokenKind::RParen {
                    Ok((inner, next + 1))
                } else {
                    Err(expect(Rule::ClosingParenthesis, ts, bytes.len(), next))
                }
            },
        },
        _ => Err(expect(Rule::Expression, ts, bytes.len(), i)),
    }
}

/// A primary expression behind any number of `-` and `~`.
pub fn parse_unary(ts: &Vec<Token>, bytes: &[u8], i: usize) -> (res: Result<
    (Expression, usize),
    ParseError,
>)
    requires
        tokens_fit(ts@, bytes@.len()),
    ensures
        parsed_as(res, i) == unary(ts@, bytes@, i as nat),
        res matches Ok((_, next)) ==> i < next <= ts@.len(),
    decreases remaining(ts@.len(), i as int), 2nat,
{
    let kind = peek(ts, i);
    let op = match kind {
        Some(TokenKind::Minus) => Some(UnaryOp::Neg),
        Some(TokenKind::Tilde) => Some(UnaryOp::Not),
        _ => None,
    };
    match op {
        Some(op) => match parse_unary(ts, bytes, i + 1) {
            Err(e) => Err(e),
            Ok((inner, next)) => Ok((Expression::Unary(op, Box::new(inner)), next)),
        },
        None => parse_primary(ts, bytes, i),
    }
}

/// An expression of the level `level` of precedence from the `i`-th token
/// on.
pub fn parse_binary(ts: &Vec<Token>, bytes: &[u8], i: usize, level: usize) -> (res: Result<
    (Expression, usize),
    ParseError,
>)
    requires
        tokens_fit(ts@, bytes@.len()),
    ensures
        parsed_as(res, i) == binary(ts@, bytes@, i as nat, level as nat),
        res matches Ok((_, next)) ==> i < next <= ts@.len(),
    decreases remaining(ts@.len(), i as int), rank(level as nat),
{
    if level >= 4 {
        parse_unary(ts, bytes, i)
    } else {
        match parse_binary(ts, bytes, i, level + 1) {
            Err(e) => Err(e),
            Ok((first, next)) => parse_tail(ts, bytes, i, next, level, first),
        }
    }
}

/// The expression of the level `level` that starts with `lhs`, which
/// starts at the `i`-th token and ends before the `j`-th.
pub fn parse_tail(
    ts: &Vec<Token>,
    bytes: &[u8],
    i: usize,
    j: usize,
    level: usize,
    lhs: Expression,
) -> (res: Result<(Expression, usize), ParseError>)
    requires
        tokens_fit(ts@, bytes@.len()),
        i < j <= ts@.len(),
        level < 4,
    ensures
        parsed_as(res, i) == tail(
            ts@,
            bytes@,
            j as nat,
            level as nat,
            lhs@,
            (j - i) as nat,
        ),
        res matches Ok((_, next)) ==> i < next <= ts@.len(),
    decreases remaining(ts@.len(), j as int), 0nat,
{
    let kind = peek(ts, j);
    let op = to_binary_op(kind, level);
    match op {
        None => Ok((lhs, j)),
        Some(op) => {
            if level == 3 {
                match parse_binary(ts, bytes, j + 1, 3) {
                    Err(e) => Err(e),
                    Ok((rhs, next)) => Ok((Expression::Binary(op, Box::new(lhs), Box::new(rhs)), next)),
                }
            } else {
                match parse_binary(ts, bytes, j + 1, level + 1) {
                    Err(e) => Err(e),
                    Ok((rhs, next)) => parse_tail(
                        ts,
                        bytes,
                        i,
                        next,
                        level,
                        Expression::Binary(op, Box::new(lhs), Box::new(rhs)),
                    ),
                }
            }
        },
    }
}

/// An expression from the `i`-th token on, and the index of the token
/// behind it.
pub fn parse_expr(ts: &Vec<Token>, bytes: &[u8], i: usize) -> (res: Result<
    (Expression, usize),
    ParseError,
>)
    requires
        tokens_fit(ts@, bytes@.len()),
    ensures
        parsed_as(res, i) == expression(ts@, bytes@, i as nat),
        res matches Ok((_, next)) ==> i < next <= ts@.len(),
{
    parse_binary(ts, bytes, i, 0)
}

/// The kind of the token that lies `k` behind the `i`-th, where there is
/// one.
pub fn peek_at(ts: &Vec<Token>, i: usize, k: usize) -> (kind: Option<TokenKind>)
    ensures
        kind == kind_at(ts@, (i + k) as nat),
        kind is Some <==> i + k < ts@.len(),
        kind is Some ==> i + k < usize::MAX,
{
    if i < ts.len() && k < ts.len() - i {
        Some(ts[i + k].kind)
    } else {
        None
    }
}

/// `b` as a capital where it is a small letter.
pub open spec fn upper(b: u8) -> u8 {
    if 0x61 <= b && b <= 0x7a {
        (b - 0x20) as u8
    } else {
        b
    }
}

/// The characters that are written at `span`, small letters as capitals.
pub open spec fn upper_name(bytes: Seq<u8>, span: Span) -> Seq<char> {
    Seq::new((span.end - span.start) as nat, |k: int| upper(bytes[span.start + k]) as char)
}

/// The characters that are written at `span`, small letters as capitals.
pub fn read_upper(bytes: &[u8], span: Span) -> (name: String)
    requires
        span.start <= span.end <= bytes@.len(),
    ensures
        name@ == upper_name(bytes@, span),
{
    let mut name = String::new();
    let mut i: usize = span.start;
    while i < span.end
        invariant
            span.start <= i <= span.end <= bytes@.len(),
            name@ == upper_name(bytes@, Span { start: span.start, end: i }),
        decreases span.end - i,
    {
        let b: u8 = bytes[i];
        let c: u8 = if 0x61 <= b && b <= 0x7a { b - 0x20 } else { b };
        name.push(c as char);
        i += 1;
        assert(name@ =~= upper_name(bytes@, Span { start: span.start, end: i }));
    }
    assert(name@ =~= upper_name(bytes@, span));
    name
}

/// Whether `name` is the word `word`.
pub fn same(name: &String, word: &str) -> (res: bool)
    ensures
        res == (name@ == word@),
{
    let other = word.to_owned();
    *name == other
}

/// The condition that a branch of the given name tests.
pub open spec fn condition_of(name: Seq<char>) -> Option<Condition> {
    if name == "BHI"@ {
        Some(Condition::HI)
    } else if name == "BLS"@ {
        Some(Condition::LS)
    } else if name == "BCC"@ {
        Some(Condition::CC)
    } else if name == "BCS"@ {
        Some(Condition::CS)
    } else if name == "BNE"@ {
        Some(Condition::NE)
    } else if name == "BEQ"@ {
        Some(Condition::EQ)
    } else if name == "BVC"@ {
        Some(Condition::VC)
    } else if name == "BVS"@ {
        Some(Condition::VS)
    } else if name == "BPL"@ {
        Some(Condition::PL)
    } else if name == "BMI"@ {
        Some(Condition::MI)
    } else if name == "BGE"@ {
        Some(Condition::GE)
    } else if name == "BLT"@ {
        Some(Condition::LT)
    } else if name == "BGT"@ {
        Some(Condition::GT)
    } else if name == "BLE"@ {
        Some(Condition::LE)
    } else {
        None
    }
}

/// The operation of the given name.
pub open spec fn mnemonic_of(name: Seq<char>) -> Option<Mnemonic> {
    if name == "LEA"@ {
        Some(Mnemonic::LEA)
    } else if name == "LINK"@ {
        Some(Mnemonic::LINK)
    } else if name == "MOVE"@ {
        Some(Mnemonic::MOVE)
    } else if name == "MOVEA"@ {
        Some(Mnemonic::MOVEA)
    } else if name == "PEA"@ {
        Some(Mnemonic::PEA)
    } else if name == "UNLK"@ {
        Some(Mnemonic::UNLK)
    } else if name == "CLR"@ {
        Some(Mnemonic::CLR)
    } else if name == "CMP"@ {
        Some(Mnemonic::CMP)
    } else if name == "CMPI"@ {
        Some(Mnemonic::CMPI)
    } else if name == "ADDA"@ {
        Some(Mnemonic::ADDA)
    } else if name == "SUBA"@ {
        Some(Mnemonic::SUBA)
    } else if name == "BSR"@ {
        Some(Mnemonic::BSR)
    } else if name == "JMP"@ {
        Some(Mnemonic::JMP)
    } else if name == "NOP"@ {
        Some(Mnemonic::NOP)
    } else if name == "RTS"@ {
        Some(Mnemonic::RTS)
    } else if name == "RTE"@ {
        Some(Mnemonic::RTE)
    } else if name == "ANDI"@ {
        Some(Mnemonic::ANDI)
    } else if name == "BKPT"@ {
        Some(Mnemonic::BKPT)
    } else if name == "TRAP"@ {
        Some(Mnemonic::TRAP)
    } else {
        match condition_of(name) {
            Some(cc) => Some(Mnemonic::Bcc(cc)),
            None => None,
        }
    }
}

/// A word that a statement can start with.
#[derive(Debug, Clone, Copy, PartialEq, Eq, Structural)]
pub enum Keyword {
    Operation(Mnemonic),
    Org,
    Equ,
    Dc,
    Ds,
    Include,
}

/// The keyword of the given name.
pub open spec fn keyword_of(name: Seq<char>) -> Option<Keyword> {
    if name == "ORG"@ {
        Some(Keyword::Org)
    } else if name == "EQU"@ {
        Some(Keyword::Equ)
    } else if name == "DC"@ {
        Some(Keyword::Dc)
    } else if name == "DS"@ {
        Some(Keyword::Ds)
    } else if name == "INCLUDE"@ {
        Some(Keyword::Include)
    } else {
        match mnemonic_of(name) {
            Some(m) => Some(Keyword::Operation(m)),
            None => None,
        }
    }
}

/// The size of the given name.
pub open spec fn size_of(name: Seq<char>) -> Option<IntSize> {
    if name == "B"@ {
        Some(IntSize::B)
    } else if name == "W"@ {
        Some(IntSize::W)
    } else if name == "L"@ {
        Some(IntSize::L)
    } else {
        None
    }
}

/// The number of the address register of the given name; `SP` is `A7`.
pub open spec fn address_register_of(name: Seq<char>) -> Option<u8> {
    if name == "A0"@ {
        Some(0u8)
    } else if name == "A1"@ {
        Some(1u8)
    } else if name == "A2"@ {
        Some(2u8)
    } else if name == "A3"@ {
        Some(3u8)
    } else if name == "A4"@ {
        Some(4u8)
    } else if name == "A5"@ {
        Some(5u8)
    } else if name == "A6"@ {
        Some(6u8)
    } else if name == "A7"@ || name == "SP"@ {
        Some(7u8)
    } else {
        None
    }
}

/// The number of the data register of the given name.
pub open spec fn data_register_of(name: Seq<char>) -> Option<u8> {
    if name == "D0"@ {
        Some(0u8)
    } else if name == "D1"@ {
        Some(1u8)
    } else if name == "D2"@ {
        Some(2u8)
    } else if name == "D3"@ {
        Some(3u8)
    } else if name == "D4"@ {
        Some(4u8)
    } else if name == "D5"@ {
        Some(5u8)
    } else if name == "D6"@ {
        Some(6u8)
    } else if name == "D7"@ {
        Some(7u8)
    } else {
        None
    }
}

/// The operand that the register of the given name is.
pub open spec fn register_of(name: Seq<char>) -> Option<OperandView> {
    match data_register_of(name) {
        Some(n) => Some(OperandView::Dn(Dn::of(n))),
        None => match address_register_of(name) {
            Some(n) => Some(OperandView::An(An::of(n))),
            None => if name == "SR"@ {
                Some(OperandView::Sr)
            } else if name == "USP"@ {
                Some(OperandView::Usp)
            } else {
                None
            },
        },
    }
}

fn to_condition(name: &String) -> (res: Option<Condition>)
    ensures
        res == condition_of(name@),
{
    if same(name, "BHI") {
        Some(Condition::HI)
    } else if same(name, "BLS") {
        Some(Condition::LS)
    } else if same(name, "BCC") {
        Some(Condition::CC)
    } else if same(name, "BCS") {
        Some(Condition::CS)
    } else if same(name, "BNE") {
        Some(Condition::NE)
    } else if same(name, "BEQ") {
        Some(Condition::EQ)
    } else if same(name, "BVC") {
        Some(Condition::VC)
    } else if same(name, "BVS") {
        Some(Condition::VS)
    } else if same(name, "BPL") {
        Some(Condition::PL)
    } else if same(name, "BMI") {
        Some(Condition::MI)
    } else if same(name, "BGE") {
        Some(Condition::GE)
    } else if same(name, "BLT") {
        Some(Condition::LT)
    } else if same(name, "BGT") {
        Some(Condition::GT)
    } else if same(name, "BLE") {
        Some(Condition::LE)
    } else {
        None
    }
}

fn to_mnemonic(name: &String) -> (res: Option<Mnemonic>)
    ensures
        res == mnemonic_of(name@),
{
    if same(name, "LEA") {
        Some(Mnemonic::LEA)
    } else if same(name, "LINK") {
        Some(Mnemonic::LINK)
    } else if same(name, "MOVE") {
        Some(Mnemonic::MOVE)
    } else if same(name, "MOVEA") {
        Some(Mnemonic::MOVEA)
    } else if same(name, "PEA") {
        Some(Mnemonic::PEA)
    } else if same(name, "UNLK") {
        Some(Mnemonic::UNLK)
    } else if same(name, "CLR") {
        Some(Mnemonic::CLR)
    } else if same(name, "CMP") {
        Some(Mnemonic::CMP)
    } else if same(name, "CMPI") {
        Some(Mnemonic::CMPI)
    } else if same(name, "ADDA") {
        Some(Mnemonic::ADDA)
    } else if same(name, "SUBA") {
        Some(Mnemonic::SUBA)
    } else if same(name, "BSR") {
        Some(Mnemonic::BSR)
    } else if same(name, "JMP") {
        Some(Mnemonic::JMP)
    } else if same(name, "NOP") {
        Some(Mnemonic::NOP)
    } else if same(name, "RTS") {
        Some(Mnemonic::RTS)
    } else if same(name, "RTE") {
        Some(Mnemonic::RTE)
    } else if same(name, "ANDI") {
        Some(Mnemonic::ANDI)
    } else if same(name, "BKPT") {
        Some(Mnemonic::BKPT)
    } else if same(name, "TRAP") {
        Some(Mnemonic::TRAP)
    } else {
        match to_condition(name) {
            Some(cc) => Some(Mnemonic::Bcc(cc)),
            None => None,
        }
    }
}

fn to_keyword(name: &String) -> (res: Option<Keyword>)
    ensures
        res == keyword_of(name@),
{
    if same(name, "ORG") {
        Some(Keyword::Org)
    } else if same(name, "EQU") {
        Some(Keyword::Equ)
    } else if same(name, "DC") {
        Some(Keyword::Dc)
    } else if same(name, "DS") {
        Some(Keyword::Ds)
    } else if same(name, "INCLUDE") {
        Some(Keyword::Include)
    } else {
        match to_mnemonic(name) {
            Some(m) => Some(Keyword::Operation(m)),
            None => None,
        }
    }
}

fn to_size(name: &String) -> (res: Option<IntSize>)
    ensures
        res == size_of(name@),
{
    if same(name, "B") {
        Some(IntSize::B)
    } else if same(name, "W") {
        Some(IntSize::W)
    } else if same(name, "L") {
        Some(IntSize::L)
    } else {
        None
    }
}

fn to_address_register(name: &String) -> (res: Option<An>)
    ensures
        match res {
            Some(an) => address_register_of(name@) matches Some(n) && an == An::of(n),
            None => address_register_of(name@) is None,
        },
{
    let n: u8 = if same(name, "A0") {
        0
    } else if same(name, "A1") {
        1
    } else if same(name, "A2") {
        2
    } else if same(name, "A3") {
        3
    } else if same(name, "A4") {
        4
    } else if same(name, "A5") {
        5
    } else if same(name, "A6") {
        6
    } else if same(name, "A7") || same(name, "SP") {
        7
    } else {
        return None;
    };
    An::new(n)
}

fn to_data_register(name: &String) -> (res: Option<Dn>)
    ensures
        match res {
            Some(dn) => data_register_of(name@) matches Some(n) && dn == Dn::of(n),
            None => data_register_of(name@) is None,
        },
{
    let n: u8 = if same(name, "D0") {
        0
    } else if same(name, "D1") {
        1
    } else if same(name, "D2") {
        2
    } else if same(name, "D3") {
        3
    } else if same(name, "D4") {
        4
    } else if same(name, "D5") {
        5
    } else if same(name, "D6") {
        6
    } else if same(name, "D7") {
        7
    } else {
        return None;
    };
    Dn::new(n)
}

/// What an operand that was parsed stands for.
pub open spec fn operand_view(res: Option<Operand>) -> Option<OperandView> {
    match res {
        Some(operand) => Some(operand@),
        None => None,
    }
}

fn to_register(name: &String) -> (res: Option<Operand>)
    ensures
        operand_view(res) == register_of(name@),
{
    match to_data_register(name) {
        Some(dn) => Some(Operand::Dn(dn)),
        None => match to_address_register(name) {
            Some(an) => Some(Operand::An(an)),
            None => if same(name, "SR") {
                Some(Operand::Sr)
            } else if same(name, "USP") {
                Some(Operand::Usp)
            } else {
                None
            },
        },
    }
}

/// The name of the `i`-th token in capitals, where it is a name.
pub open spec fn word_at(ts: Seq<Token>, bytes: Seq<u8>, i: nat) -> Option<Seq<char>> {
    if kind_at(ts, i) == Some(TokenKind::Ident) {
        Some(upper_name(bytes, ts[i as int].span))
    } else {
        None
    }
}

/// The name of the token that lies `k` behind the `i`-th, in capitals.
pub fn read_word(ts: &Vec<Token>, bytes: &[u8], i: usize, k: usize) -> (res: Option<String>)
    requires
        tokens_fit(ts@, bytes@.len()),
    ensures
        match res {
            Some(name) => word_at(ts@, bytes@, (i + k) as nat) == Some(name@),
            None => word_at(ts@, bytes@, (i + k) as nat) is None,
        },
        res is Some ==> i + k < ts@.len() && i + k < usize::MAX,
{
    match peek_at(ts, i, k) {
        Some(TokenKind::Ident) => Some(read_upper(bytes, ts[i + k].span)),
        _ => None,
    }
}

/// The address register that the `i`-th token names, where it names one.
pub open spec fn an_at(ts: Seq<Token>, bytes: Seq<u8>, i: nat) -> Option<An> {
    match word_at(ts, bytes, i) {
        Some(name) => match address_register_of(name) {
            Some(n) => Some(An::of(n)),
            None => None,
        },
        None => None,
    }
}

/// The address register that the token names that lies `k` behind the
/// `i`-th, where it names one.
pub fn read_an(ts: &Vec<Token>, bytes: &[u8], i: usize, k: usize) -> (res: Option<An>)
    requires
        tokens_fit(ts@, bytes@.len()),
    ensures
        res == an_at(ts@, bytes@, (i + k) as nat),
        res is Some ==> i + k < ts@.len() && i + k < usize::MAX,
{
    match read_word(ts, bytes, i, k) {
        Some(name) => to_address_register(&name),
        None => None,
    }
}

/// An expression and, behind a `.`, `W` for the short form of the
/// absolute address; the long form without it, or with `L`.
pub open spec fn absolute(ts: Seq<Token>, bytes: Seq<u8>, i: nat) -> Result<
    Parsed<OperandView>,
    ParseError,
> {
    match expression(ts, bytes, i) {
        Err(e) => Err(e),
        Ok(e) => if kind_at(ts, i + e.used) == Some(TokenKind::Dot) {
            match word_at(ts, bytes, i + e.used + 1) {
                Some(name) if size_of(name) == Some(IntSize::W) => Ok(
                    Parsed { value: OperandView::AbsoluteShort(e.value), used: e.used + 2 },
                ),
                Some(name) if size_of(name) == Some(IntSize::L) => Ok(
                    Parsed { value: OperandView::AbsoluteLong(e.value), used: e.used + 2 },
                ),
                _ => Err(expected(Rule::Size, ts, bytes.len() as usize, i + e.used + 1)),
            }
        } else {
            Ok(Parsed { value: OperandView::AbsoluteLong(e.value), used: e.used })
        },
    }
}

/// `(expression, An)` from the `i`-th token on, where that is what stands
/// there.
pub open spec fn displacement(ts: Seq<Token>, bytes: Seq<u8>, i: nat) -> Option<
    Parsed<OperandView>,
> {
    match expression(ts, bytes, i + 1) {
        Ok(e) => match an_at(ts, bytes, i + 2 + e.used) {
            Some(an) => if kind_at(ts, i + 1 + e.used) == Some(TokenKind::Comma) && kind_at(
                ts,
                i + 3 + e.used,
            ) == Some(TokenKind::RParen) {
                Some(Parsed { value: OperandView::IndirectDisp(e.value, an), used: e.used + 4 })
            } else {
                None
            },
            None => None,
        },
        Err(_) => None,
    }
}

/// An operand from the `i`-th token on: `#expression`, `-(An)`, `(An)+`,
/// `(An)`, `(expression, An)`, a register, or an absolute address.
pub open spec fn operand(ts: Seq<Token>, bytes: Seq<u8>, i: nat) -> Result<
    Parsed<OperandView>,
    ParseError,
> {
    match kind_at(ts, i) {
        Some(TokenKind::Hash) => match expression(ts, bytes, i + 1) {
            Err(e) => Err(e),
            Ok(e) => Ok(Parsed { value: OperandView::Immediate(e.value), used: e.used + 1 }),
        },
        Some(TokenKind::Minus) => match an_at(ts, bytes, i + 2) {
            Some(an) if kind_at(ts, i + 1) == Some(TokenKind::LParen) && kind_at(ts, i + 3)
                == Some(TokenKind::RParen) => Ok(
                Parsed { value: OperandView::IndirectPreDec(an), used: 4 },
            ),
            _ => absolute(ts, bytes, i),
        },
        Some(TokenKind::LParen) => match an_at(ts, bytes, i + 1) {
            Some(an) if kind_at(ts, i + 2) == Some(TokenKind::RParen) => if kind_at(ts, i + 3)
                == Some(TokenKind::Plus) {
                Ok(Parsed { value: OperandView::IndirectPostInc(an), used: 4 })
            } else {
                Ok(Parsed { value: OperandView::Indirect(an), used: 3 })
            },
            _ => match displacement(ts, bytes, i) {
                Some(parsed) => Ok(parsed),
                None => absolute(ts, bytes, i),
            },
        },
        _ => match word_at(ts, bytes, i) {
            Some(name) if register_of(name) is Some => Ok(
                Parsed { value: register_of(name).unwrap(), used: 1 },
            ),
            _ => absolute(ts, bytes, i),
        },
    }
}

/// Whether a line ends at the `i`-th token, or the text does.
pub open spec fn at_line_end(ts: Seq<Token>, i: nat) -> bool {
    kind_at(ts, i) is None || kind_at(ts, i) == Some(TokenKind::Newline)
}

/// The operands from the `i`-th token on, behind the operands `so_far`
/// that took `used` tokens: one operand, and one more behind each comma.
pub open spec fn operand_list(
    ts: Seq<Token>,
    bytes: Seq<u8>,
    i: nat,
    so_far: Seq<OperandView>,
    used: nat,
) -> Result<Parsed<Seq<OperandView>>, ParseError>
    decreases remaining(ts.len(), i as int),
{
    match operand(ts, bytes, i) {
        Err(e) => Err(e),
        Ok(p) => if kind_at(ts, i + p.used) == Some(TokenKind::Comma) {
            operand_list(ts, bytes, i + p.used + 1, so_far.push(p.value), used + p.used + 1)
        } else {
            Ok(Parsed { value: so_far.push(p.value), used: used + p.used })
        },
    }
}

/// The operands of an operation: none where the line ends.
pub open spec fn operands(ts: Seq<Token>, bytes: Seq<u8>, i: nat) -> Result<
    Parsed<Seq<OperandView>>,
    ParseError,
> {
    if at_line_end(ts, i) {
        Ok(Parsed { value: Seq::empty(), used: 0 })
    } else {
        operand_list(ts, bytes, i, Seq::empty(), 0)
    }
}

/// What is written between the quotes of the string at `span`.
pub open spec fn quoted(bytes: Seq<u8>, span: Span) -> Seq<u8> {
    if span.end - span.start >= 2 {
        bytes.subrange(span.start + 1, span.end - 1)
    } else {
        Seq::empty()
    }
}

/// A data item from the `i`-th token on: a string, or an expression.
pub open spec fn data_item(ts: Seq<Token>, bytes: Seq<u8>, i: nat) -> Result<
    Parsed<DataItemView>,
    ParseError,
> {
    if kind_at(ts, i) == Some(TokenKind::Text) {
        Ok(Parsed { value: DataItemView::Text(quoted(bytes, ts[i as int].span)), used: 1 })
    } else {
        match expression(ts, bytes, i) {
            Err(e) => Err(e),
            Ok(e) => Ok(
                Parsed {
                    value: DataItemView::Value(
                        e.value,
                        Span { start: ts[i as int].span.start, end: ts[i + e.used - 1].span.end },
                    ),
                    used: e.used,
                },
            ),
        }
    }
}

/// The data items from the `i`-th token on, behind the items `so_far` that
/// took `used` tokens: one item, and one more behind each comma.
pub open spec fn data_list(
    ts: Seq<Token>,
    bytes: Seq<u8>,
    i: nat,
    so_far: Seq<DataItemView>,
    used: nat,
) -> Result<Parsed<Seq<DataItemView>>, ParseError>
    decreases remaining(ts.len(), i as int),
{
    match data_item(ts, bytes, i) {
        Err(e) => Err(e),
        Ok(p) => if kind_at(ts, i + p.used) == Some(TokenKind::Comma) {
            data_list(ts, bytes, i + p.used + 1, so_far.push(p.value), used + p.used + 1)
        } else {
            Ok(Parsed { value: so_far.push(p.value), used: used + p.used })
        },
    }
}

/// The size behind a `.`, where a `.` stands at the `i`-th token.
pub open spec fn size_suffix(ts: Seq<Token>, bytes: Seq<u8>, i: nat) -> Result<
    Parsed<Option<IntSize>>,
    ParseError,
> {
    if kind_at(ts, i) == Some(TokenKind::Dot) {
        match word_at(ts, bytes, i + 1) {
            Some(name) if size_of(name) is Some => Ok(Parsed { value: size_of(name), used: 2 }),
            _ => Err(expected(Rule::Size, ts, bytes.len() as usize, i + 1)),
        }
    } else {
        Ok(Parsed { value: None, used: 0 })
    }
}

/// The number of tokens from the `i`-th on before the line ends.
pub open spec fn line_tokens(ts: Seq<Token>, i: nat) -> nat
    decreases remaining(ts.len(), i as int),
{
    if at_line_end(ts, i) {
        0
    } else {
        1 + line_tokens(ts, i + 1)
    }
}

/// The path of an `INCLUDE` from the `i`-th token on: what is written
/// between the quotes of a string, or else what is written from the
/// `i`-th token to the last of the line.
pub open spec fn include_path(ts: Seq<Token>, bytes: Seq<u8>, i: nat) -> Result<
    Parsed<Seq<u8>>,
    ParseError,
> {
    if kind_at(ts, i) == Some(TokenKind::Text) {
        Ok(Parsed { value: quoted(bytes, ts[i as int].span), used: 1 })
    } else if line_tokens(ts, i) == 0 {
        Err(expected(Rule::Path, ts, bytes.len() as usize, i))
    } else {
        let from = ts[i as int].span.start;
        let to = ts[i + line_tokens(ts, i) - 1].span.end;
        Ok(
            Parsed {
                value: if from <= to {
                    bytes.subrange(from as int, to as int)
                } else {
                    Seq::empty()
                },
                used: line_tokens(ts, i),
            },
        )
    }
}

/// The keyword that the `i`-th token is, where it is one.
pub open spec fn keyword_at(ts: Seq<Token>, bytes: Seq<u8>, i: nat) -> Option<Keyword> {
    match word_at(ts, bytes, i) {
        Some(name) => keyword_of(name),
        None => None,
    }
}

/// What stands behind the keyword `keyword`, from the `i`-th token on.
pub open spec fn behind(keyword: Keyword, ts: Seq<Token>, bytes: Seq<u8>, i: nat) -> Result<
    Parsed<BodyView>,
    ParseError,
> {
    match keyword {
        Keyword::Operation(mnemonic) => match size_suffix(ts, bytes, i) {
            Err(e) => Err(e),
            Ok(size) => match operands(ts, bytes, i + size.used) {
                Err(e) => Err(e),
                Ok(list) => Ok(
                    Parsed {
                        value: BodyView::Instruction(
                            OperationView { mnemonic, size: size.value, operands: list.value },
                        ),
                        used: size.used + list.used,
                    },
                ),
            },
        },
        Keyword::Org => match expression(ts, bytes, i) {
            Err(e) => Err(e),
            Ok(e) => Ok(
                Parsed { value: BodyView::Directive(DirectiveView::Org(e.value)), used: e.used },
            ),
        },
        Keyword::Equ => match expression(ts, bytes, i) {
            Err(e) => Err(e),
            Ok(e) => Ok(
                Parsed { value: BodyView::Directive(DirectiveView::Equ(e.value)), used: e.used },
            ),
        },
        Keyword::Dc => match size_suffix(ts, bytes, i) {
            Err(e) => Err(e),
            Ok(size) => match data_list(ts, bytes, i + size.used, Seq::empty(), 0) {
                Err(e) => Err(e),
                Ok(list) => Ok(
                    Parsed {
                        value: BodyView::Directive(
                            DirectiveView::DefineConstant(size_or_word(size.value), list.value),
                        ),
                        used: size.used + list.used,
                    },
                ),
            },
        },
        Keyword::Ds => match size_suffix(ts, bytes, i) {
            Err(e) => Err(e),
            Ok(size) => match expression(ts, bytes, i + size.used) {
                Err(e) => Err(e),
                Ok(e) => Ok(
                    Parsed {
                        value: BodyView::Directive(
                            DirectiveView::DefineStorage(size_or_word(size.value), e.value),
                        ),
                        used: size.used + e.used,
                    },
                ),
            },
        },
        Keyword::Include => match include_path(ts, bytes, i) {
            Err(e) => Err(e),
            Ok(path) => Ok(
                Parsed {
                    value: BodyView::Directive(DirectiveView::Include(path.value)),
                    used: path.used,
                },
            ),
        },
    }
}

/// Whether `pos` is the start of a line.
pub open spec fn first_column(bytes: Seq<u8>, pos: int) -> bool {
    pos == 0 || (0 < pos <= bytes.len() && bytes[pos - 1] == 0x0a)
}

/// The label at the `i`-th token, where one stands there: a name before a
/// `:`, or a name at the start of a line that is no keyword.
pub open spec fn label_at(ts: Seq<Token>, bytes: Seq<u8>, i: nat) -> Option<Parsed<LabelView>> {
    if kind_at(ts, i) == Some(TokenKind::Ident) {
        let label = LabelView {
            name: name_of(bytes, ts[i as int].span),
            span: ts[i as int].span,
        };
        if kind_at(ts, i + 1) == Some(TokenKind::Colon) {
            Some(Parsed { value: label, used: 2 })
        } else if first_column(bytes, ts[i as int].span.start as int) && keyword_at(ts, bytes, i) is None {
            Some(Parsed { value: label, used: 1 })
        } else {
            None
        }
    } else {
        None
    }
}

/// The number of line ends from the `i`-th token on.
pub open spec fn newlines(ts: Seq<Token>, i: nat) -> nat
    decreases remaining(ts.len(), i as int),
{
    if kind_at(ts, i) == Some(TokenKind::Newline) {
        1 + newlines(ts, i + 1)
    } else {
        0
    }
}

/// The statement from the `i`-th token on, which starts at the `first`-th,
/// with the label `label`: a keyword and what stands behind it, up to the
/// end of the line.
pub open spec fn labelled(
    ts: Seq<Token>,
    bytes: Seq<u8>,
    first: nat,
    label: Option<LabelView>,
    i: nat,
) -> Result<Parsed<StatementView>, ParseError> {
    match keyword_at(ts, bytes, i) {
        None => Err(expected(Rule::Statement, ts, bytes.len() as usize, i)),
        Some(keyword) => match behind(keyword, ts, bytes, i + 1) {
            Err(e) => Err(e),
            Ok(body) => if at_line_end(ts, i + 1 + body.used) {
                Ok(
                    Parsed {
                        value: StatementView {
                            label,
                            body: body.value,
                            span: Span {
                                start: ts[first as int].span.start,
                                end: ts[(i + body.used) as int].span.end,
                            },
                        },
                        used: (i + 1 + body.used - first) as nat,
                    },
                )
            } else {
                Err(expected(Rule::EndOfLine, ts, bytes.len() as usize, i + 1 + body.used))
            },
        },
    }
}

/// The statement from the `i`-th token on. A label may stand alone in its
/// line: it then belongs to the statement of the next line that is not
/// empty, where that line starts with a keyword, and else is a statement
/// by itself.
#[verifier::opaque]
pub open spec fn statement(ts: Seq<Token>, bytes: Seq<u8>, i: nat) -> Result<
    Parsed<StatementView>,
    ParseError,
> {
    match label_at(ts, bytes, i) {
        None => labelled(ts, bytes, i, None, i),
        Some(label) => {
            let next = i + label.used + newlines(ts, i + label.used);
            if keyword_at(ts, bytes, next) is Some {
                labelled(ts, bytes, i, Some(label.value), next)
            } else {
                Ok(
                    Parsed {
                        value: StatementView {
                            label: Some(label.value),
                            body: BodyView::Empty,
                            span: Span {
                                start: ts[i as int].span.start,
                                end: ts[i + label.used - 1].span.end,
                            },
                        },
                        used: label.used,
                    },
                )
            }
        },
    }
}

/// The statements from the `i`-th token on.
pub open spec fn program(ts: Seq<Token>, bytes: Seq<u8>, i: nat) -> Result<
    Seq<StatementView>,
    ParseError,
>
    decreases remaining(ts.len(), i as int),
{
    if i >= ts.len() {
        Ok(Seq::empty())
    } else if kind_at(ts, i) == Some(TokenKind::Newline) {
        program(ts, bytes, i + 1)
    } else {
        match statement(ts, bytes, i) {
            Err(e) => Err(e),
            Ok(p) => match program(ts, bytes, i + if p.used == 0 { 1 } else { p.used }) {
                Err(e) => Err(e),
                Ok(rest) => Ok(seq![p.value] + rest),
            },
        }
    }
}

/// The statements of a text, or why it has none.
pub open spec fn parse_text(bytes: Seq<u8>) -> Result<Seq<StatementView>, ParseError> {
    match tokens_of(bytes) {
        Err(e) => Err(e),
        Ok(ts) => program(ts, bytes, 0),
    }
}

/// What a result of parsing from the `i`-th token on stands for.
pub open spec fn parsed_as<T: View>(res: Result<(T, usize), ParseError>, i: usize) -> Result<
    Parsed<T::V>,
    ParseError,
> {
    match res {
        Ok((value, next)) => Ok(Parsed { value: value@, used: (next - i) as nat }),
        Err(e) => Err(e),
    }
}

/// What each of the values holds.
pub open spec fn views_of<T: View>(values: Seq<T>) -> Seq<T::V> {
    Seq::new(values.len(), |k: int| values[k]@)
}

/// What a result of parsing a list from the `i`-th token on stands for.
pub open spec fn parsed_list<T: View>(res: Result<(Vec<T>, usize), ParseError>, i: usize) -> Result<
    Parsed<Seq<T::V>>,
    ParseError,
> {
    match res {
        Ok((values, next)) => Ok(Parsed { value: views_of(values@), used: (next - i) as nat }),
        Err(e) => Err(e),
    }
}

/// An absolute address from the `i`-th token on: an expression, and
/// `.W` or `.L` where its form is written.
pub fn parse_absolute(ts: &Vec<Token>, bytes: &[u8], i: usize) -> (res: Result<
    (Operand, usize),
    ParseError,
>)
    requires
        tokens_fit(ts@, bytes@.len()),
    ensures
        parsed_as(res, i) == absolute(ts@, bytes@, i as nat),
        res matches Ok((_, next)) ==> i < next <= ts@.len(),
{
    match parse_expr(ts, bytes, i) {
        Err(e) => Err(e),
        Ok((e, next)) => {
            let dot = peek_at(ts, next, 0);
            if dot == Some(TokenKind::Dot) {
                let size = match read_word(ts, bytes, next, 1) {
                    Some(name) => to_size(&name),
                    None => None,
                };
                match size {
                    Some(IntSize::W) => Ok((Operand::AbsoluteShort(e), next + 2)),
                    Some(IntSize::L) => Ok((Operand::AbsoluteLong(e), next + 2)),
                    _ => Err(expect(Rule::Size, ts, bytes.len(), next + 1)),
                }
            } else {
                Ok((Operand::AbsoluteLong(e), next))
            }
        },
    }
}

/// What a result of looking for `(expression, An)` stands for.
pub open spec fn found_as(res: Option<(Operand, usize)>, i: usize) -> Option<Parsed<OperandView>> {
    match res {
        Some((value, next)) => Some(Parsed { value: value@, used: (next - i) as nat }),
        None => None,
    }
}

/// `(expression, An)` from the `i`-th token on, where that is what
/// stands there.
pub fn parse_displacement(ts: &Vec<Token>, bytes: &[u8], i: usize) -> (res: Option<(Operand, usize)>)
    requires
        tokens_fit(ts@, bytes@.len()),
        i < ts@.len(),
        i < usize::MAX,
    ensures
        found_as(res, i) == displacement(ts@, bytes@, i as nat),
        res matches Some((_, next)) ==> i < next <= ts@.len(),
{
    match parse_expr(ts, bytes, i + 1) {
        Ok((e, next)) => match read_an(ts, bytes, next, 1) {
            Some(an) => {
                let comma = peek_at(ts, next, 0);
                let close = peek_at(ts, next, 2);
                if comma == Some(TokenKind::Comma) && close == Some(TokenKind::RParen) {
                    Some((Operand::IndirectDisp(e, an), next + 3))
                } else {
                    None
                }
            },
            None => None,
        },
        Err(_) => None,
    }
}

/// An operand from the `i`-th token on, and the index of the token
/// behind it.
pub fn parse_operand(ts: &Vec<Token>, bytes: &[u8], i: usize) -> (res: Result<
    (Operand, usize),
    ParseError,
>)
    requires
        tokens_fit(ts@, bytes@.len()),
    ensures
        parsed_as(res, i) == operand(ts@, bytes@, i as nat),
        res matches Ok((_, next)) ==> i < next <= ts@.len(),
{
    let kind = peek(ts, i);
    match kind {
        Some(TokenKind::Hash) => match parse_expr(ts, bytes, i + 1) {
            Err(e) => Err(e),
            Ok((e, next)) => Ok((Operand::Immediate(e), next)),
        },
        Some(TokenKind::Minus) => {
            let an = read_an(ts, bytes, i, 2);
            let open = peek_at(ts, i, 1);
            let close = peek_at(ts, i, 3);
            match an {
                Some(an) => {
                    if open == Some(TokenKind::LParen) && close == Some(TokenKind::RParen) {
                        Ok((Operand::IndirectPreDec(an), i + 4))
                    } else {
                        parse_absolute(ts, bytes, i)
                    }
                },
                None => parse_absolute(ts, bytes, i),
            }
        },
        Some(TokenKind::LParen) => {
            let an = read_an(ts, bytes, i, 1);
            let close = peek_at(ts, i, 2);
            let plus = peek_at(ts, i, 3);
            let indirect: Option<An> = match an {
                Some(an) => if close == Some(TokenKind::RParen) {
                    Some(an)
                } else {
                    None
                },
                None => None,
            };
            match indirect {
                Some(an) => {
                    if plus == Some(TokenKind::Plus) {
                        Ok((Operand::IndirectPostInc(an), i + 4))
                    } else {
                        Ok((Operand::Indirect(an), i + 3))
                    }
                },
                None => match parse_displacement(ts, bytes, i) {
                    Some(parsed) => Ok(parsed),
                    None => parse_absolute(ts, bytes, i),
                },
            }
        },
        _ => {
            let register = match read_word(ts, bytes, i, 0) {
                Some(name) => to_register(&name),
                None => None,
            };
            match register {
                Some(operand) => Ok((operand, i + 1)),
                None => parse_absolute(ts, bytes, i),
            }
        },
    }
}

/// Whether a line ends at the `i`-th token, or the text does.
pub fn line_ends(ts: &Vec<Token>, i: usize) -> (res: bool)
    ensures
        res == at_line_end(ts@, i as nat),
        !res ==> i < ts@.len() && i < usize::MAX,
{
    match peek(ts, i) {
        None => true,
        Some(TokenKind::Newline) => true,
        _ => false,
    }
}

/// The operands from the `i`-th token on, behind the operands `so_far`
/// that start at the `first`-th token.
pub fn parse_operand_list(
    ts: &Vec<Token>,
    bytes: &[u8],
    first: usize,
    i: usize,
    so_far: Vec<Operand>,
) -> (res: Result<(Vec<Operand>, usize), ParseError>)
    requires
        tokens_fit(ts@, bytes@.len()),
        first <= i,
    ensures
        parsed_list(res, first) == operand_list(
            ts@,
            bytes@,
            i as nat,
            views_of(so_far@),
            (i - first) as nat,
        ),
        res matches Ok((_, next)) ==> i < next <= ts@.len(),
    decreases remaining(ts@.len(), i as int),
{
    match parse_operand(ts, bytes, i) {
        Err(e) => Err(e),
        Ok((operand, next)) => {
            let mut list = so_far;
            let ghost value = operand@;
            list.push(operand);
            assert(views_of(list@) =~= views_of(so_far@).push(value));
            let comma = peek_at(ts, next, 0);
            if comma == Some(TokenKind::Comma) {
                parse_operand_list(ts, bytes, first, next + 1, list)
            } else {
                Ok((list, next))
            }
        },
    }
}

/// The operands of an operation from the `i`-th token on: none where
/// the line ends.
pub fn parse_operands(ts: &Vec<Token>, bytes: &[u8], i: usize) -> (res: Result<
    (Vec<Operand>, usize),
    ParseError,
>)
    requires
        tokens_fit(ts@, bytes@.len()),
        i <= ts@.len(),
    ensures
        parsed_list(res, i) == operands(ts@, bytes@, i as nat),
        res matches Ok((_, next)) ==> i <= next <= ts@.len(),
{
    if line_ends(ts, i) {
        let list: Vec<Operand> = Vec::new();
        assert(views_of(list@) =~= Seq::<OperandView>::empty());
        Ok((list, i))
    } else {
        let list: Vec<Operand> = Vec::new();
        assert(views_of(list@) =~= Seq::<OperandView>::empty());
        parse_operand_list(ts, bytes, i, i, list)
    }
}

/// A copy of the bytes from `from` up to `to`.
pub fn copy_bytes(bytes: &[u8], from: usize, to: usize) -> (res: Vec<u8>)
    requires
        from <= to <= bytes@.len(),
    ensures
        res@ == bytes@.subrange(from as int, to as int),
{
    let mut res: Vec<u8> = Vec::new();
    let mut i: usize = from;
    assert(res@ =~= bytes@.subrange(from as int, from as int));
    while i < to
        invariant
            from <= i <= to <= bytes@.len(),
            res@ == bytes@.subrange(from as int, i as int),
        decreases to - i,
    {
        res.push(bytes[i]);
        i += 1;
        assert(res@ =~= bytes@.subrange(from as int, i as int));
    }
    res
}

/// What is written between the quotes of the string at `span`; nothing
/// where the span is too short to hold two quotes.
pub fn read_quoted(bytes: &[u8], span: Span) -> (res: Vec<u8>)
    requires
        span.start < span.end <= bytes@.len(),
    ensures
        res@ == quoted(bytes@, span),
{
    if span.end - span.start >= 2 {
        copy_bytes(bytes, span.start + 1, span.end - 1)
    } else {
        Vec::new()
    }
}

/// A data item from the `i`-th token on: a string, or an expression.
pub fn parse_data_item(ts: &Vec<Token>, bytes: &[u8], i: usize) -> (res: Result<
    (DataItem, usize),
    ParseError,
>)
    requires
        tokens_fit(ts@, bytes@.len()),
    ensures
        parsed_as(res, i) == data_item(ts@, bytes@, i as nat),
        res matches Ok((_, next)) ==> i < next <= ts@.len(),
{
    let kind = peek(ts, i);
    if kind == Some(TokenKind::Text) {
        Ok((DataItem::Text(read_quoted(bytes, ts[i].span)), i + 1))
    } else {
        match parse_expr(ts, bytes, i) {
            Err(e) => Err(e),
            Ok((e, next)) => {
                let span = Span { start: ts[i].span.start, end: ts[next - 1].span.end };
                Ok((DataItem::Value(e, span), next))
            },
        }
    }
}

/// The data items from the `i`-th token on, behind the items `so_far` that
/// start at the `first`-th token.
pub fn parse_data_list(
    ts: &Vec<Token>,
    bytes: &[u8],
    first: usize,
    i: usize,
    so_far: Vec<DataItem>,
) -> (res: Result<(Vec<DataItem>, usize), ParseError>)
    requires
        tokens_fit(ts@, bytes@.len()),
        first <= i,
    ensures
        parsed_list(res, first) == data_list(
            ts@,
            bytes@,
            i as nat,
            views_of(so_far@),
            (i - first) as nat,
        ),
        res matches Ok((_, next)) ==> i < next <= ts@.len(),
    decreases remaining(ts@.len(), i as int),
{
    match parse_data_item(ts, bytes, i) {
        Err(e) => Err(e),
        Ok((item, next)) => {
            let mut list = so_far;
            let ghost value = item@;
            list.push(item);
            assert(views_of(list@) =~= views_of(so_far@).push(value));
            let comma = peek_at(ts, next, 0);
            if comma == Some(TokenKind::Comma) {
                parse_data_list(ts, bytes, first, next + 1, list)
            } else {
                Ok((list, next))
            }
        },
    }
}

/// What a result of parsing a size stands for.
pub open spec fn parsed_size(res: Result<(Option<IntSize>, usize), ParseError>, i: usize) -> Result<
    Parsed<Option<IntSize>>,
    ParseError,
> {
    match res {
        Ok((value, next)) => Ok(Parsed { value, used: (next - i) as nat }),
        Err(e) => Err(e),
    }
}

/// The size behind a `.`, where a `.` stands at the `i`-th token.
pub fn parse_size_suffix(ts: &Vec<Token>, bytes: &[u8], i: usize) -> (res: Result<
    (Option<IntSize>, usize),
    ParseError,
>)
    requires
        tokens_fit(ts@, bytes@.len()),
        i <= ts@.len(),
    ensures
        parsed_size(res, i) == size_suffix(ts@, bytes@, i as nat),
        res matches Ok((_, next)) ==> i <= next <= ts@.len(),
{
    let dot = peek(ts, i);
    if dot == Some(TokenKind::Dot) {
        let size = match read_word(ts, bytes, i, 1) {
            Some(name) => to_size(&name),
            None => None,
        };
        match size {
            Some(s) => Ok((Some(s), i + 2)),
            None => Err(expect(Rule::Size, ts, bytes.len(), i + 1)),
        }
    } else {
        Ok((None, i))
    }
}

/// The index of the token from the `i`-th on at which the line ends.
pub fn find_line_tokens(ts: &Vec<Token>, i: usize) -> (end: usize)
    requires
        i <= ts@.len(),
    ensures
        end == i + line_tokens(ts@, i as nat),
        i <= end <= ts@.len(),
{
    let mut j: usize = i;
    while !line_ends(ts, j)
        invariant
            i <= j <= ts@.len(),
            i + line_tokens(ts@, i as nat) == j + line_tokens(ts@, j as nat),
        decreases ts@.len() - j,
    {
        j += 1;
    }
    j
}

/// What a result of parsing a path stands for.
pub open spec fn parsed_path(res: Result<(Vec<u8>, usize), ParseError>, i: usize) -> Result<
    Parsed<Seq<u8>>,
    ParseError,
> {
    match res {
        Ok((value, next)) => Ok(Parsed { value: value@, used: (next - i) as nat }),
        Err(e) => Err(e),
    }
}

/// The path of an `INCLUDE` from the `i`-th token on.
pub fn parse_include_path(ts: &Vec<Token>, bytes: &[u8], i: usize) -> (res: Result<
    (Vec<u8>, usize),
    ParseError,
>)
    requires
        tokens_fit(ts@, bytes@.len()),
        i <= ts@.len(),
    ensures
        parsed_path(res, i) == include_path(ts@, bytes@, i as nat),
        res matches Ok((_, next)) ==> i < next <= ts@.len(),
{
    let kind = peek(ts, i);
    if kind == Some(TokenKind::Text) {
        Ok((read_quoted(bytes, ts[i].span), i + 1))
    } else {
        let end: usize = find_line_tokens(ts, i);
        if end == i {
            Err(expect(Rule::Path, ts, bytes.len(), i))
        } else {
            if ts[i].span.start <= ts[end - 1].span.end {
                Ok((copy_bytes(bytes, ts[i].span.start, ts[end - 1].span.end), end))
            } else {
                Ok((Vec::new(), end))
            }
        }
    }
}

/// The keyword that the `i`-th token is, where it is one.
pub fn read_keyword(ts: &Vec<Token>, bytes: &[u8], i: usize) -> (res: Option<Keyword>)
    requires
        tokens_fit(ts@, bytes@.len()),
    ensures
        res == keyword_at(ts@, bytes@, i as nat),
        res is Some ==> i < ts@.len() && i < usize::MAX,
{
    match read_word(ts, bytes, i, 0) {
        Some(name) => to_keyword(&name),
        None => None,
    }
}

/// What stands behind the keyword `keyword`, from the `i`-th token on.
pub fn parse_behind(keyword: Keyword, ts: &Vec<Token>, bytes: &[u8], i: usize) -> (res: Result<
    (Body, usize),
    ParseError,
>)
    requires
        tokens_fit(ts@, bytes@.len()),
        i <= ts@.len(),
    ensures
        parsed_as(res, i) == behind(keyword, ts@, bytes@, i as nat),
        res matches Ok((_, next)) ==> i <= next <= ts@.len(),
{
    match keyword {
        Keyword::Operation(mnemonic) => match parse_size_suffix(ts, bytes, i) {
            Err(e) => Err(e),
            Ok((size, at)) => match parse_operands(ts, bytes, at) {
                Err(e) => Err(e),
                Ok((operands, next)) => Ok(
                    (Body::Instruction(Operation { mnemonic, size, operands }), next),
                ),
            },
        },
        Keyword::Org => match parse_expr(ts, bytes, i) {
            Err(e) => Err(e),
            Ok((e, next)) => Ok((Body::Directive(Directive::Org(e)), next)),
        },
        Keyword::Equ => match parse_expr(ts, bytes, i) {
            Err(e) => Err(e),
            Ok((e, next)) => Ok((Body::Directive(Directive::Equ(e)), next)),
        },
        Keyword::Dc => match parse_size_suffix(ts, bytes, i) {
            Err(e) => Err(e),
            Ok((size, at)) => {
                let list: Vec<DataItem> = Vec::new();
                assert(views_of(list@) =~= Seq::<DataItemView>::empty());
                match parse_data_list(ts, bytes, at, at, list) {
                    Err(e) => Err(e),
                    Ok((items, next)) => Ok(
                        (
                            Body::Directive(Directive::DefineConstant(to_size_or_word(size), items)),
                            next,
                        ),
                    ),
                }
            },
        },
        Keyword::Ds => match parse_size_suffix(ts, bytes, i) {
            Err(e) => Err(e),
            Ok((size, at)) => match parse_expr(ts, bytes, at) {
                Err(e) => Err(e),
                Ok((e, next)) => Ok(
                    (Body::Directive(Directive::DefineStorage(to_size_or_word(size), e)), next),
                ),
            },
        },
        Keyword::Include => match parse_include_path(ts, bytes, i) {
            Err(e) => Err(e),
            Ok((path, next)) => Ok((Body::Directive(Directive::Include(path)), next)),
        },
    }
}

/// What a label that was found stands for.
pub open spec fn found_label(res: Option<(Label, usize)>, i: usize) -> Option<Parsed<LabelView>> {
    match res {
        Some((label, next)) => Some(Parsed { value: label@, used: (next - i) as nat }),
        None => None,
    }
}

/// Whether `pos` is the start of a line.
pub fn starts_line(bytes: &[u8], pos: usize) -> (res: bool)
    ensures
        res == first_column(bytes@, pos as int),
{
    pos == 0 || (pos <= bytes.len() && bytes[pos - 1] == 0x0a)
}

/// The label at the `i`-th token, where one stands there, and the index of
/// the token behind it.
pub fn parse_label(ts: &Vec<Token>, bytes: &[u8], i: usize) -> (res: Option<(Label, usize)>)
    requires
        tokens_fit(ts@, bytes@.len()),
    ensures
        found_label(res, i) == label_at(ts@, bytes@, i as nat),
        res matches Some((_, next)) ==> i < next <= ts@.len() && next <= i + 2,
{
    let kind = peek(ts, i);
    if kind == Some(TokenKind::Ident) {
        let span = ts[i].span;
        let colon = peek_at(ts, i, 1);
        if colon == Some(TokenKind::Colon) {
            Some((Label { name: read_name(bytes, span), span }, i + 2))
        } else if starts_line(bytes, span.start) && read_keyword(ts, bytes, i).is_none() {
            Some((Label { name: read_name(bytes, span), span }, i + 1))
        } else {
            None
        }
    } else {
        None
    }
}

/// The index of the first token from the `i`-th on that is no line end.
pub fn skip_newlines(ts: &Vec<Token>, i: usize) -> (end: usize)
    requires
        i <= ts@.len(),
    ensures
        end == i + newlines(ts@, i as nat),
        i <= end <= ts@.len(),
{
    let mut j: usize = i;
    while j < ts.len() && ts[j].kind == TokenKind::Newline
        invariant
            i <= j <= ts@.len(),
            i + newlines(ts@, i as nat) == j + newlines(ts@, j as nat),
        decreases ts@.len() - j,
    {
        j += 1;
    }
    j
}

/// What the label of a statement stands for.
pub open spec fn label_view(label: Option<Label>) -> Option<LabelView> {
    match label {
        Some(l) => Some(l@),
        None => None,
    }
}

/// The statement from the `i`-th token on, which starts at the `first`-th,
/// with the label `label`.
pub fn parse_labelled(
    ts: &Vec<Token>,
    bytes: &[u8],
    first: usize,
    label: Option<Label>,
    i: usize,
) -> (res: Result<(Statement, usize), ParseError>)
    requires
        tokens_fit(ts@, bytes@.len()),
        first <= i,
        first < ts@.len(),
    ensures
        parsed_as(res, first) == labelled(
            ts@,
            bytes@,
            first as nat,
            label_view(label),
            i as nat,
        ),
        res matches Ok((_, next)) ==> i < next <= ts@.len(),
{
    match read_keyword(ts, bytes, i) {
        None => Err(expect(Rule::Statement, ts, bytes.len(), i)),
        Some(keyword) => match parse_behind(keyword, ts, bytes, i + 1) {
            Err(e) => Err(e),
            Ok((body, next)) => {
                if line_ends(ts, next) {
                    let span = Span { start: ts[first].span.start, end: ts[next - 1].span.end };
                    Ok((Statement { label, body, span }, next))
                } else {
                    Err(expect(Rule::EndOfLine, ts, bytes.len(), next))
                }
            },
        },
    }
}

/// The statement from the `i`-th token on, and the index of the token
/// behind it.
pub fn parse_statement(ts: &Vec<Token>, bytes: &[u8], i: usize) -> (res: Result<
    (Statement, usize),
    ParseError,
>)
    requires
        tokens_fit(ts@, bytes@.len()),
        i < ts@.len(),
    ensures
        parsed_as(res, i) == statement(ts@, bytes@, i as nat),
        res matches Ok((_, next)) ==> i < next <= ts@.len(),
{
    reveal(statement);
    match parse_label(ts, bytes, i) {
        None => parse_labelled(ts, bytes, i, None, i),
        Some((label, behind_label)) => {
            let next: usize = skip_newlines(ts, behind_label);
            if read_keyword(ts, bytes, next).is_some() {
                parse_labelled(ts, bytes, i, Some(label), next)
            } else {
                let span = Span { start: ts[i].span.start, end: ts[behind_label - 1].span.end };
                Ok((Statement { label: Some(label), body: Body::Empty, span }, behind_label))
            }
        },
    }
}

/// The statements that `so_far` and the statements of the rest of the
/// text make.
pub open spec fn with_rest(
    so_far: Seq<StatementView>,
    rest: Result<Seq<StatementView>, ParseError>,
) -> Result<Seq<StatementView>, ParseError> {
    match rest {
        Ok(statements) => Ok(so_far + statements),
        Err(e) => Err(e),
    }
}

/// What a result of parsing a text stands for.
pub open spec fn parsed_program(res: Result<Vec<Statement>, ParseError>) -> Result<
    Seq<StatementView>,
    ParseError,
> {
    match res {
        Ok(statements) => Ok(views_of(statements@)),
        Err(e) => Err(e),
    }
}

/// The statements that the tokens `ts` of the text `bytes` make.
pub fn statements(ts: &Vec<Token>, bytes: &[u8]) -> (res: Result<Vec<Statement>, ParseError>)
    requires
        tokens_fit(ts@, bytes@.len()),
    ensures
        parsed_program(res) == program(ts@, bytes@, 0),
{
    let mut out: Vec<Statement> = Vec::new();
    let mut i: usize = 0;
    proof {
        match program(ts@, bytes@, 0) {
            Ok(rest) => {
                assert(views_of(out@) + rest =~= rest);
            },
            Err(_) => {},
        }
    }
    while i < ts.len()
        invariant
            i <= ts@.len(),
            tokens_fit(ts@, bytes@.len()),
            with_rest(views_of(out@), program(ts@, bytes@, i as nat)) == program(ts@, bytes@, 0),
        decreases ts@.len() - i,
    {
        if ts[i].kind == TokenKind::Newline {
            i += 1;
        } else {
            match parse_statement(ts, bytes, i) {
                Err(e) => {
                    return Err(e);
                },
                Ok((statement, next)) => {
                    let ghost before = views_of(out@);
                    let ghost value = statement@;
                    out.push(statement);
                    proof {
                        assert(views_of(out@) =~= before.push(value));
                        match program(ts@, bytes@, next as nat) {
                            Ok(rest) => {
                                assert(views_of(out@) + rest =~= before + (seq![value] + rest));
                            },
                            Err(_) => {},
                        }
                    }
                    i = next;
                },
            }
        }
    }
    proof {
        assert(views_of(out@) + Seq::<StatementView>::empty() =~= views_of(out@));
    }
    Ok(out)
}

/// The parser of assembly source.
pub struct ASMParser;

impl ASMParser {
    /// The statements of `text`, or why it has none.
    pub fn parse(text: &str) -> (res: Result<Vec<Statement>, ParseError>)
        ensures
            parsed_program(res) == parse_text(text.spec_bytes()),
    {
        let bytes = text.as_bytes();
        match tokenize(bytes) {
            Err(e) => Err(e),
            Ok(ts) => statements(&ts, bytes),
        }
    }
}

} // verus!
