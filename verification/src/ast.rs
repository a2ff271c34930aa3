//! The abstract syntax of an assembly source file.

use vstd::prelude::*;
use crate::addressing::{An, Dn};
use crate::instruction::Condition;
use crate::size::IntSize;

verus! {

/// A range of bytes of a source file: from `start` up to, not including,
/// `end`.
#[derive(Debug, Clone, Copy, PartialEq, Eq, Structural)]
pub struct Span {
    pub start: usize,
    pub end: usize,
}

/// An operator with one operand.
#[derive(Debug, Clone, Copy, PartialEq, Eq, Structural)]
pub enum UnaryOp {
    Neg,
    Not,
}

/// An operator with two operands.
#[derive(Debug, Clone, Copy, PartialEq, Eq, Structural)]
pub enum BinaryOp {
    Add,
    Sub,
    Mul,
    Div,
    Mod,
    And,
    Or,
    Shl,
    Shr,
}

/// An arithmetic expression over integer literals and symbols.
#[derive(Debug, PartialEq, Eq)]
pub enum Expression {
    Literal(i32),
    /// A symbol, and where in the source it is written.
    Symbol(String, Span),
    Unary(UnaryOp, Box<Expression>),
    Binary(BinaryOp, Box<Expression>, Box<Expression>),
}

/// An operand as it is written.
#[derive(Debug, PartialEq, Eq)]
pub enum Operand {
    Dn(Dn),
    An(An),
    Indirect(An),
    IndirectPostInc(An),
    IndirectPreDec(An),
    IndirectDisp(Expression, An),
    AbsoluteShort(Expression),
    AbsoluteLong(Expression),
    Immediate(Expression),
    /// The status register.
    Sr,
    /// The user stack pointer.
    Usp,
}

/// The name of an operation.
#[allow(non_camel_case_types)]
#[derive(Debug, Clone, Copy, PartialEq, Eq, Structural)]
pub enum Mnemonic {
    LEA,
    LINK,
    MOVE,
    MOVEA,
    PEA,
    UNLK,
    CLR,
    CMP,
    CMPI,
    ADDA,
    SUBA,
    Bcc(Condition),
    BSR,
    JMP,
    NOP,
    RTS,
    RTE,
    ANDI,
    BKPT,
    TRAP,
}

/// An instruction as it is written: a mnemonic, a size suffix where one is
/// given, and the operands.
#[derive(Debug, PartialEq, Eq)]
pub struct Operation {
    pub mnemonic: Mnemonic,
    pub size: Option<IntSize>,
    pub operands: Vec<Operand>,
}

/// One item of a `DC` directive.
#[derive(Debug, PartialEq, Eq)]
pub enum DataItem {
    /// The bytes of a string.
    Text(Vec<u8>),
    /// An expression, and where in the source it is written.
    Value(Expression, Span),
}

/// A directive.
#[derive(Debug, PartialEq, Eq)]
pub enum Directive {
    Org(Expression),
    Equ(Expression),
    DefineConstant(IntSize, Vec<DataItem>),
    DefineStorage(IntSize, Expression),
    /// The path of the file, as its bytes.
    Include(Vec<u8>),
}

/// A label, and where in the source it is written.
#[derive(Debug, PartialEq, Eq)]
pub struct Label {
    pub name: String,
    pub span: Span,
}

/// What a statement asks for.
#[derive(Debug, PartialEq, Eq)]
pub enum Body {
    Instruction(Operation),
    Directive(Directive),
    /// A label with nothing behind it.
    Empty,
}

/// A statement: a label where one is given, and an instruction or a
/// directive.
#[derive(Debug, PartialEq, Eq)]
pub struct Statement {
    pub label: Option<Label>,
    pub body: Body,
    pub span: Span,
}

impl Statement {
    /// Whether the statement asks for another file.
    pub open spec fn is_include(self) -> bool {
        self.body matches Body::Directive(Directive::Include(_))
    }

    /// Whether the statement asks for another file.
    pub fn includes(&self) -> (res: bool)
        ensures
            res == self.is_include(),
    {
        match &self.body {
            Body::Directive(Directive::Include(_)) => true,
            _ => false,
        }
    }
}

/// What an expression holds.
pub enum ExpressionView {
    Literal(i32),
    Symbol(Seq<char>, Span),
    Unary(UnaryOp, Box<ExpressionView>),
    Binary(BinaryOp, Box<ExpressionView>, Box<ExpressionView>),
}

/// What `e` holds.
pub open spec fn expression_view(e: Expression) -> ExpressionView
    decreases e,
{
    match e {
        Expression::Literal(v) => ExpressionView::Literal(v),
        Expression::Symbol(name, span) => ExpressionView::Symbol(name@, span),
        Expression::Unary(op, inner) => ExpressionView::Unary(
            op,
            Box::new(expression_view(*inner)),
        ),
        Expression::Binary(op, lhs, rhs) => ExpressionView::Binary(
            op,
            Box::new(expression_view(*lhs)),
            Box::new(expression_view(*rhs)),
        ),
    }
}

impl View for Expression {
    type V = ExpressionView;

    open spec fn view(&self) -> ExpressionView {
        expression_view(*self)
    }
}

/// What an operand holds.
pub enum OperandView {
    Dn(Dn),
    An(An),
    Indirect(An),
    IndirectPostInc(An),
    IndirectPreDec(An),
    IndirectDisp(ExpressionView, An),
    AbsoluteShort(ExpressionView),
    AbsoluteLong(ExpressionView),
    Immediate(ExpressionView),
    Sr,
    Usp,
}

impl View for Operand {
    type V = OperandView;

    open spec fn view(&self) -> OperandView {
        match self {
            Operand::Dn(r) => OperandView::Dn(*r),
            Operand::An(r) => OperandView::An(*r),
            Operand::Indirect(r) => OperandView::Indirect(*r),
            Operand::IndirectPostInc(r) => OperandView::IndirectPostInc(*r),
            Operand::IndirectPreDec(r) => OperandView::IndirectPreDec(*r),
            Operand::IndirectDisp(e, r) => OperandView::IndirectDisp(e@, *r),
            Operand::AbsoluteShort(e) => OperandView::AbsoluteShort(e@),
            Operand::AbsoluteLong(e) => OperandView::AbsoluteLong(e@),
            Operand::Immediate(e) => OperandView::Immediate(e@),
            Operand::Sr => OperandView::Sr,
            Operand::Usp => OperandView::Usp,
        }
    }
}

/// What an operation holds.
pub struct OperationView {
    pub mnemonic: Mnemonic,
    pub size: Option<IntSize>,
    pub operands: Seq<OperandView>,
}

impl View for Operation {
    type V = OperationView;

    open spec fn view(&self) -> OperationView {
        OperationView {
            mnemonic: self.mnemonic,
            size: self.size,
            operands: Seq::new(self.operands@.len(), |i: int| self.operands@[i]@),
        }
    }
}

/// What a data item holds.
pub enum DataItemView {
    Text(Seq<u8>),
    Value(ExpressionView, Span),
}

impl View for DataItem {
    type V = DataItemView;

    open spec fn view(&self) -> DataItemView {
        match self {
            DataItem::Text(text) => DataItemView::Text(text@),
            DataItem::Value(e, span) => DataItemView::Value(e@, *span),
        }
    }
}

/// What a directive holds.
pub enum DirectiveView {
    Org(ExpressionView),
    Equ(ExpressionView),
    DefineConstant(IntSize, Seq<DataItemView>),
    DefineStorage(IntSize, ExpressionView),
    Include(Seq<u8>),
}

impl View for Directive {
    type V = DirectiveView;

    open spec fn view(&self) -> DirectiveView {
        match self {
            Directive::Org(e) => DirectiveView::Org(e@),
            Directive::Equ(e) => DirectiveView::Equ(e@),
            Directive::DefineConstant(size, items) => DirectiveView::DefineConstant(
                *size,
                Seq::new(items@.len(), |i: int| items@[i]@),
            ),
            Directive::DefineStorage(size, count) => DirectiveView::DefineStorage(*size, count@),
            Directive::Include(path) => DirectiveView::Include(path@),
        }
    }
}

/// What a label holds.
pub struct LabelView {
    pub name: Seq<char>,
    pub span: Span,
}

impl View for Label {
    type V = LabelView;

    open spec fn view(&self) -> LabelView {
        LabelView { name: self.name@, span: self.span }
    }
}

/// What the body of a statement holds.
pub enum BodyView {
    Instruction(OperationView),
    Directive(DirectiveView),
    Empty,
}

impl View for Body {
    type V = BodyView;

    open spec fn view(&self) -> BodyView {
        match self {
            Body::Instruction(op) => BodyView::Instruction(op@),
            Body::Directive(d) => BodyView::Directive(d@),
            Body::Empty => BodyView::Empty,
        }
    }
}

/// What a statement holds.
pub struct StatementView {
    pub label: Option<LabelView>,
    pub body: BodyView,
    pub span: Span,
}

impl View for Statement {
    type V = StatementView;

    open spec fn view(&self) -> StatementView {
        StatementView {
            label: match self.label {
                Some(label) => Some(label@),
                None => None,
            },
            body: self.body@,
            span: self.span,
        }
    }
}

} // verus!
