use m68kasm::addressing::{An, Dn};
use m68kasm::ast::{
    BinaryOp, Body, DataItem, Directive, Expression, Label, Mnemonic, Operand, Operation, Span,
    Statement, UnaryOp,
};
use m68kasm::instruction::Condition;
use m68kasm::lexer::{tokenize, ErrorLocation, ParseError, ParseProblem, Rule, Token, TokenKind};
use m68kasm::parser::ASMParser;
use m68kasm::size::IntSize;

const EXAMPLE: &str = "\
; A small program that exercises every statement of the assembler.
STACK   EQU     $8000
COUNT   EQU     (4+4)*2         ; sixteen
MASK    EQU     $F0 & ~%1010 | @17

        ORG     $1000
start:  LEA     STACK.L,A7
        LINK    A6,#-8
        MOVE.L  #$12345678,D0
        MOVE.W  D0,(A0)+
        MOVE.B  -(A1),D2
        MOVE    (table,A2),D3
        MOVEA.L #table,A0
        CLR.W   D1
loop:   CMP.L   (A0),D1
        CMPI.B  #65,(A0)
        BEQ     done
        ADDA.W  #2,A0
        SUBA.L  D1,A3
        BSR     helper
        BNE     loop
done:
        UNLK    A6
        PEA     (A5)
        ANDI    #$F8FF,SR
        MOVE    D0,SR
        MOVE    A0,USP
        MOVE    USP,A1
        BKPT    #3
        TRAP    #15
        JMP     finish

helper: NOP
        RTS

table:  DC.B    'Hi',0,COUNT
        DC.W    1,2,3<<4
        DC.L    start, loop + 2
buffer: DS.W    COUNT / 2
finish: RTE
";

#[test]
fn parser_test_example() {
    if let Err(e) = ASMParser::parse(EXAMPLE) {
        panic!("{e:?}")
    }
}

fn parse_one(text: &str) -> Statement {
    let mut statements = ASMParser::parse(text).unwrap();
    assert_eq!(statements.len(), 1);
    statements.pop().unwrap()
}

fn symbol(name: &str, start: usize) -> Expression {
    Expression::Symbol(name.to_string(), Span { start, end: start + name.len() })
}

fn binary(op: BinaryOp, lhs: Expression, rhs: Expression) -> Expression {
    Expression::Binary(op, Box::new(lhs), Box::new(rhs))
}

fn expression_of(text: &str) -> Expression {
    match parse_one(&format!(" ORG {text}")).body {
        Body::Directive(Directive::Org(e)) => e,
        other => panic!("{other:?}"),
    }
}

#[test]
fn example_has_every_statement() {
    let statements = ASMParser::parse(EXAMPLE).unwrap();
    assert_eq!(statements.len(), 35);
    let labels: Vec<&str> = statements
        .iter()
        .filter_map(|s| s.label.as_ref().map(|l| l.name.as_str()))
        .collect();
    assert_eq!(
        labels,
        vec![
            "STACK", "COUNT", "MASK", "start", "loop", "done", "helper", "table", "buffer",
            "finish"
        ]
    );
}

#[test]
fn tokens_of_a_line() {
    let tokens = tokenize(b" MOVE.L #$1F,(A0)+ ; copy\n").unwrap();
    let kinds: Vec<TokenKind> = tokens.iter().map(|t| t.kind).collect();
    assert_eq!(
        kinds,
        vec![
            TokenKind::Ident,
            TokenKind::Dot,
            TokenKind::Ident,
            TokenKind::Hash,
            TokenKind::Number(0x1F),
            TokenKind::Comma,
            TokenKind::LParen,
            TokenKind::Ident,
            TokenKind::RParen,
            TokenKind::Plus,
            TokenKind::Newline,
        ]
    );
    assert_eq!(tokens[0], Token { kind: TokenKind::Ident, span: Span { start: 1, end: 5 } });
    assert_eq!(tokens[4].span, Span { start: 9, end: 12 });
    assert_eq!(tokens[10].span, Span { start: 25, end: 26 });
}

#[test]
fn literals_in_every_base() {
    assert_eq!(expression_of("1234"), Expression::Literal(1234));
    assert_eq!(expression_of("$ff"), Expression::Literal(255));
    assert_eq!(expression_of("$FF"), Expression::Literal(255));
    assert_eq!(expression_of("@17"), Expression::Literal(15));
    assert_eq!(expression_of("%1010"), Expression::Literal(10));
    assert_eq!(expression_of("2147483647"), Expression::Literal(i32::MAX));
    assert_eq!(expression_of("2147483648"), Expression::Literal(i32::MIN));
    assert_eq!(expression_of("$FFFFFFFF"), Expression::Literal(-1));
    assert_eq!(expression_of("4294967295"), Expression::Literal(-1));
}

#[test]
fn literal_overflow_is_an_error() {
    assert_eq!(
        ASMParser::parse(" ORG 4294967296"),
        Err(ParseError {
            problem: ParseProblem::LiteralOverflow,
            location: ErrorLocation::Span(5, 15),
        })
    );
    assert_eq!(
        ASMParser::parse(" ORG $100000000").unwrap_err().problem,
        ParseProblem::LiteralOverflow
    );
    assert_eq!(
        ASMParser::parse(" ORG $").unwrap_err(),
        ParseError {
            problem: ParseProblem::Expected(Rule::Digit),
            location: ErrorLocation::Single(6),
        }
    );
}

#[test]
fn precedence_and_grouping() {
    // sums bind loosest, then products, then and/or, then shifts
    assert_eq!(
        expression_of("1+2*3"),
        binary(
            BinaryOp::Add,
            Expression::Literal(1),
            binary(BinaryOp::Mul, Expression::Literal(2), Expression::Literal(3))
        )
    );
    assert_eq!(
        expression_of("2*3&4<<5"),
        binary(
            BinaryOp::Mul,
            Expression::Literal(2),
            binary(
                BinaryOp::And,
                Expression::Literal(3),
                binary(BinaryOp::Shl, Expression::Literal(4), Expression::Literal(5))
            )
        )
    );
    // left to right
    assert_eq!(
        expression_of("8-4-2"),
        binary(
            BinaryOp::Sub,
            binary(BinaryOp::Sub, Expression::Literal(8), Expression::Literal(4)),
            Expression::Literal(2)
        )
    );
    assert_eq!(
        expression_of("8/4\\3"),
        binary(
            BinaryOp::Mod,
            binary(BinaryOp::Div, Expression::Literal(8), Expression::Literal(4)),
            Expression::Literal(3)
        )
    );
    // the shifts group from the right
    assert_eq!(
        expression_of("1<<2>>3"),
        binary(
            BinaryOp::Shl,
            Expression::Literal(1),
            binary(BinaryOp::Shr, Expression::Literal(2), Expression::Literal(3))
        )
    );
    // unary operators bind tightest
    assert_eq!(
        expression_of("-~1+x"),
        binary(
            BinaryOp::Add,
            Expression::Unary(
                UnaryOp::Neg,
                Box::new(Expression::Unary(UnaryOp::Not, Box::new(Expression::Literal(1))))
            ),
            symbol("x", 9)
        )
    );
    assert_eq!(
        expression_of("(1+2)*3"),
        binary(
            BinaryOp::Mul,
            binary(BinaryOp::Add, Expression::Literal(1), Expression::Literal(2)),
            Expression::Literal(3)
        )
    );
    assert_eq!(
        expression_of("1|2!3"),
        binary(
            BinaryOp::Or,
            binary(BinaryOp::Or, Expression::Literal(1), Expression::Literal(2)),
            Expression::Literal(3)
        )
    );
}

#[test]
fn operands_of_every_form() {
    let a = |n: u8| An::new(n).unwrap();
    let d = |n: u8| Dn::new(n).unwrap();
    let operand = |text: &str| -> Operand {
        match parse_one(&format!(" PEA {text}")).body {
            Body::Instruction(mut op) => op.operands.pop().unwrap(),
            other => panic!("{other:?}"),
        }
    };
    assert_eq!(operand("D3"), Operand::Dn(d(3)));
    assert_eq!(operand("a5"), Operand::An(a(5)));
    assert_eq!(operand("SP"), Operand::An(a(7)));
    assert_eq!(operand("(A1)"), Operand::Indirect(a(1)));
    assert_eq!(operand("(A2)+"), Operand::IndirectPostInc(a(2)));
    assert_eq!(operand("-(A3)"), Operand::IndirectPreDec(a(3)));
    assert_eq!(operand("(8,A4)"), Operand::IndirectDisp(Expression::Literal(8), a(4)));
    assert_eq!(
        operand("(-2*4,SP)"),
        Operand::IndirectDisp(
            binary(
                BinaryOp::Mul,
                Expression::Unary(UnaryOp::Neg, Box::new(Expression::Literal(2))),
                Expression::Literal(4)
            ),
            a(7)
        )
    );
    assert_eq!(operand("$1000.W"), Operand::AbsoluteShort(Expression::Literal(0x1000)));
    assert_eq!(operand("$1000.L"), Operand::AbsoluteLong(Expression::Literal(0x1000)));
    assert_eq!(operand("$1000"), Operand::AbsoluteLong(Expression::Literal(0x1000)));
    assert_eq!(operand("#42"), Operand::Immediate(Expression::Literal(42)));
    assert_eq!(operand("SR"), Operand::Sr);
    assert_eq!(operand("usp"), Operand::Usp);
    assert_eq!(
        operand("(1+2)*3"),
        Operand::AbsoluteLong(binary(
            BinaryOp::Mul,
            binary(BinaryOp::Add, Expression::Literal(1), Expression::Literal(2)),
            Expression::Literal(3)
        ))
    );
    assert_eq!(
        operand("-(4)"),
        Operand::AbsoluteLong(Expression::Unary(UnaryOp::Neg, Box::new(Expression::Literal(4))))
    );
}

#[test]
fn statement_with_label_and_operands() {
    let text = "copy: Move.l (A0)+,D1 ; tail";
    assert_eq!(
        parse_one(text),
        Statement {
            label: Some(Label { name: "copy".to_string(), span: Span { start: 0, end: 4 } }),
            body: Body::Instruction(Operation {
                mnemonic: Mnemonic::MOVE,
                size: Some(IntSize::L),
                operands: vec![
                    Operand::IndirectPostInc(An::new(0).unwrap()),
                    Operand::Dn(Dn::new(1).unwrap()),
                ],
            }),
            span: Span { start: 0, end: 21 },
        }
    );
}

#[test]
fn labels_in_both_forms() {
    let statements = ASMParser::parse("first NOP\n second: RTS\nNOP\nalone\n\n ; note\n BGT first\nend:").unwrap();
    let shapes: Vec<(Option<&str>, &Body)> =
        statements.iter().map(|s| (s.label.as_ref().map(|l| l.name.as_str()), &s.body)).collect();
    let op = |mnemonic: Mnemonic| Body::Instruction(Operation { mnemonic, size: None, operands: vec![] });
    assert_eq!(shapes.len(), 5);
    assert_eq!(shapes[0], (Some("first"), &op(Mnemonic::NOP)));
    assert_eq!(shapes[1], (Some("second"), &op(Mnemonic::RTS)));
    assert_eq!(shapes[2], (None, &op(Mnemonic::NOP)));
    assert_eq!(shapes[3].0, Some("alone"));
    assert_eq!(
        shapes[3].1,
        &Body::Instruction(Operation {
            mnemonic: Mnemonic::Bcc(Condition::GT),
            size: None,
            operands: vec![Operand::AbsoluteLong(symbol("first", 47))],
        })
    );
    assert_eq!(shapes[4], (Some("end"), &Body::Empty));
    // the statement of a label that stands alone runs to the end of its body
    assert_eq!(statements[3].span, Span { start: 27, end: 52 });
    assert_eq!(statements[4].span, Span { start: 53, end: 57 });
}

#[test]
fn directives() {
    assert_eq!(parse_one(" ORG $400").body, Body::Directive(Directive::Org(Expression::Literal(0x400))));
    assert_eq!(
        parse_one("io equ $FF00").body,
        Body::Directive(Directive::Equ(Expression::Literal(0xFF00)))
    );
    assert_eq!(
        parse_one(" DC.B 'AB', \"c\", 7").body,
        Body::Directive(Directive::DefineConstant(
            IntSize::B,
            vec![
                DataItem::Text(b"AB".to_vec()),
                DataItem::Text(b"c".to_vec()),
                DataItem::Value(Expression::Literal(7), Span { start: 17, end: 18 }),
            ]
        ))
    );
    assert_eq!(
        parse_one(" DC 1+2").body,
        Body::Directive(Directive::DefineConstant(
            IntSize::W,
            vec![DataItem::Value(
                binary(BinaryOp::Add, Expression::Literal(1), Expression::Literal(2)),
                Span { start: 4, end: 7 }
            )]
        ))
    );
    assert_eq!(
        parse_one(" DS.L 4").body,
        Body::Directive(Directive::DefineStorage(IntSize::L, Expression::Literal(4)))
    );
    assert_eq!(
        parse_one(" INCLUDE \"lib/io.s\"").body,
        Body::Directive(Directive::Include(b"lib/io.s".to_vec()))
    );
    assert_eq!(
        parse_one(" include lib/io.s   ; the rest").body,
        Body::Directive(Directive::Include(b"lib/io.s".to_vec()))
    );
}

#[test]
fn parse_errors() {
    let error = |text: &str| ASMParser::parse(text).unwrap_err();
    assert_eq!(
        error(" FROB D0"),
        ParseError {
            problem: ParseProblem::Expected(Rule::Statement),
            location: ErrorLocation::Span(1, 5),
        }
    );
    assert_eq!(
        error(" MOVE D0,"),
        ParseError {
            problem: ParseProblem::Expected(Rule::Expression),
            location: ErrorLocation::Single(9),
        }
    );
    assert_eq!(
        error(" ORG 1 2"),
        ParseError {
            problem: ParseProblem::Expected(Rule::EndOfLine),
            location: ErrorLocation::Span(7, 8),
        }
    );
    assert_eq!(
        error(" ORG (1+2"),
        ParseError {
            problem: ParseProblem::Expected(Rule::ClosingParenthesis),
            location: ErrorLocation::Single(9),
        }
    );
    assert_eq!(
        error(" MOVE.Q D0,D1"),
        ParseError {
            problem: ParseProblem::Expected(Rule::Size),
            location: ErrorLocation::Span(6, 7),
        }
    );
    assert_eq!(
        error(" DC.B 'open"),
        ParseError {
            problem: ParseProblem::Expected(Rule::Quote),
            location: ErrorLocation::Single(11),
        }
    );
    assert_eq!(
        error(" ORG 1 ? 2"),
        ParseError {
            problem: ParseProblem::Unexpected(Rule::Character),
            location: ErrorLocation::Single(7),
        }
    );
    assert_eq!(
        error(" ORG 1 < 2"),
        ParseError {
            problem: ParseProblem::Unexpected(Rule::Character),
            location: ErrorLocation::Single(7),
        }
    );
    assert_eq!(
        error(" INCLUDE"),
        ParseError {
            problem: ParseProblem::Expected(Rule::Path),
            location: ErrorLocation::Single(8),
        }
    );
}

#[test]
fn empty_texts_have_no_statement() {
    assert_eq!(ASMParser::parse(""), Ok(vec![]));
    assert_eq!(ASMParser::parse("\n\n ; only a comment\n\t\n"), Ok(vec![]));
}
