//! The errors of an assembly, and how they are reported.

use vstd::prelude::*;
use crate::ast::Span;

verus! {

/// A symbol that is used and not defined.
#[derive(Debug, Clone, Copy, PartialEq, Eq, Structural)]
pub struct SymbolError {
    /// Where the symbol is written.
    pub symbol_loc: Span,
    /// The file that it is written in.
    pub file: usize,
}

impl SymbolError {
    /// The error for the symbol that is written at `symbol_loc` in the file
    /// `file`.
    pub fn new(symbol_loc: Span, file: usize) -> (res: Self)
        ensures
            res == (SymbolError { symbol_loc, file }),
    {
        Self { symbol_loc, file }
    }
}

/// Why an expression has no value.
#[derive(Debug, Clone, PartialEq, Eq)]
pub enum EvalError {
    /// It uses these symbols, none of which is defined.
    UndefinedSymbols(Vec<SymbolError>),
    /// It divides by zero.
    DivisionByZero,
}

/// What evaluating an expression comes to.
pub enum Evaluation {
    Value(i32),
    Undefined(Seq<SymbolError>),
    DivisionByZero,
}

pub type SymbolResult<T> = Result<T, EvalError>;

/// Why a statement has no code.
#[derive(Debug, Clone, PartialEq, Eq)]
pub enum CodeError {
    /// It uses these symbols, none of which is defined.
    UndefinedSymbols(Vec<SymbolError>),
    /// One of its expressions divides by zero.
    DivisionByZero,
    /// The operation does not take the operands that it is written with.
    InvalidOperands,
    /// The operation does not take the size that it is written with.
    InvalidSize,
    /// It reserves a negative number of values.
    InvalidCount,
    /// Its code does not fit below the end of the address space.
    AddressOverflow,
    /// Its label is defined already.
    DuplicateLabel,
    /// It asks for a file that was not handed in.
    MissingInclude,
}

/// What a `CodeError` stands for.
pub enum Failure {
    Undefined(Seq<SymbolError>),
    DivisionByZero,
    InvalidOperands,
    InvalidSize,
    InvalidCount,
    AddressOverflow,
    DuplicateLabel,
    MissingInclude,
}

impl View for CodeError {
    type V = Failure;

    open spec fn view(&self) -> Failure {
        match self {
            CodeError::UndefinedSymbols(errors) => Failure::Undefined(errors@),
            CodeError::DivisionByZero => Failure::DivisionByZero,
            CodeError::InvalidOperands => Failure::InvalidOperands,
            CodeError::InvalidSize => Failure::InvalidSize,
            CodeError::InvalidCount => Failure::InvalidCount,
            CodeError::AddressOverflow => Failure::AddressOverflow,
            CodeError::DuplicateLabel => Failure::DuplicateLabel,
            CodeError::MissingInclude => Failure::MissingInclude,
        }
    }
}

/// What the result of a step of the assembly stands for.
pub open spec fn lift<T>(res: Result<T, CodeError>) -> Result<T, Failure> {
    match res {
        Ok(v) => Ok(v),
        Err(e) => Err(e@),
    }
}

/// What a result that holds a list stands for.
pub open spec fn lift_vec<T>(res: Result<Vec<T>, CodeError>) -> Result<Seq<T>, Failure> {
    match res {
        Ok(v) => Ok(v@),
        Err(e) => Err(e@),
    }
}

impl Evaluation {
    /// The value, or why there is none.
    pub open spec fn outcome(self) -> Result<i32, Failure> {
        match self {
            Evaluation::Value(v) => Ok(v),
            Evaluation::Undefined(errors) => Err(Failure::Undefined(errors)),
            Evaluation::DivisionByZero => Err(Failure::DivisionByZero),
        }
    }
}

/// The error of a statement whose expression has the error `e`.
pub fn code_error(e: EvalError) -> (res: CodeError)
    ensures
        Err::<i32, Failure>(res@) == evaluation_of(Err(e)).outcome(),
{
    match e {
        EvalError::UndefinedSymbols(errors) => CodeError::UndefinedSymbols(errors),
        EvalError::DivisionByZero => CodeError::DivisionByZero,
    }
}

/// What a result of an evaluation stands for.
pub open spec fn evaluation_of(res: SymbolResult<i32>) -> Evaluation {
    match res {
        Ok(v) => Evaluation::Value(v),
        Err(EvalError::UndefinedSymbols(errors)) => Evaluation::Undefined(errors@),
        Err(EvalError::DivisionByZero) => Evaluation::DivisionByZero,
    }
}

/// How grave a diagnostic is.
#[derive(Debug, Clone, Copy, PartialEq, Eq, Structural)]
pub enum ErrorKind {
    Error,
    Warning,
}

/// What a diagnostic reports.
#[derive(Debug, Clone, Copy, PartialEq, Eq, Structural)]
pub enum Problem {
    /// A symbol is used and not defined.
    UndefinedSymbol,
    /// The value of a data item was cut to fit the size of its directive.
    Truncation,
    DivisionByZero,
    InvalidOperands,
    InvalidSize,
    InvalidCount,
    AddressOverflow,
    DuplicateLabel,
    MissingInclude,
}

/// A diagnostic: how grave it is, where in which file it points, and what
/// it reports.
#[derive(Debug, Clone, Copy, PartialEq, Eq, Structural)]
pub struct Diagnostic {
    pub kind: ErrorKind,
    pub file: usize,
    pub span: Span,
    pub problem: Problem,
}

impl Failure {
    /// What a diagnostic for this failure reports.
    pub open spec fn problem(self) -> Problem {
        match self {
            Failure::Undefined(_) => Problem::UndefinedSymbol,
            Failure::DivisionByZero => Problem::DivisionByZero,
            Failure::InvalidOperands => Problem::InvalidOperands,
            Failure::InvalidSize => Problem::InvalidSize,
            Failure::InvalidCount => Problem::InvalidCount,
            Failure::AddressOverflow => Problem::AddressOverflow,
            Failure::DuplicateLabel => Problem::DuplicateLabel,
            Failure::MissingInclude => Problem::MissingInclude,
        }
    }

    /// The diagnostics for this failure of the statement that is written at
    /// `span` in the file `file`: one for each undefined symbol, where it
    /// is written; else one for the statement.
    pub open spec fn reports(self, span: Span, file: usize) -> Seq<Diagnostic> {
        match self {
            Failure::Undefined(errors) => Seq::new(
                errors.len(),
                |i: int|
                    Diagnostic {
                        kind: ErrorKind::Error,
                        file: errors[i].file,
                        span: errors[i].symbol_loc,
                        problem: Problem::UndefinedSymbol,
                    },
            ),
            _ => seq![
                Diagnostic { kind: ErrorKind::Error, file, span, problem: self.problem() },
            ],
        }
    }
}

impl CodeError {
    /// What a diagnostic for this error reports.
    pub fn problem(&self) -> (res: Problem)
        ensures
            res == self@.problem(),
    {
        match self {
            CodeError::UndefinedSymbols(_) => Problem::UndefinedSymbol,
            CodeError::DivisionByZero => Problem::DivisionByZero,
            CodeError::InvalidOperands => Problem::InvalidOperands,
            CodeError::InvalidSize => Problem::InvalidSize,
            CodeError::InvalidCount => Problem::InvalidCount,
            CodeError::AddressOverflow => Problem::AddressOverflow,
            CodeError::DuplicateLabel => Problem::DuplicateLabel,
            CodeError::MissingInclude => Problem::MissingInclude,
        }
    }

    /// Appends the diagnostics for this error of the statement that is
    /// written at `span` in the file `file`.
    pub fn report(&self, diagnostics: &mut Vec<Diagnostic>, span: Span, file: usize)
        ensures
            final(diagnostics)@ == old(diagnostics)@ + self@.reports(span, file),
    {
        match self {
            CodeError::UndefinedSymbols(errors) => {
                let mut i: usize = 0;
                assert(diagnostics@ =~= old(diagnostics)@ + self@.reports(span, file).take(0));
                while i < errors.len()
                    invariant
                        i <= errors.len(),
                        self@ == Failure::Undefined(errors@),
                        diagnostics@ == old(diagnostics)@ + self@.reports(span, file).take(i as int),
                    decreases errors.len() - i,
                {
                    diagnostics.push(
                        Diagnostic {
                            kind: ErrorKind::Error,
                            file: errors[i].file,
                            span: errors[i].symbol_loc,
                            problem: Problem::UndefinedSymbol,
                        },
                    );
                    i += 1;
                    assert(diagnostics@ =~= old(diagnostics)@ + self@.reports(span, file).take(
                        i as int,
                    ));
                }
                assert(self@.reports(span, file).take(i as int) =~= self@.reports(span, file));
            },
            _ => {
                diagnostics.push(
                    Diagnostic { kind: ErrorKind::Error, file, span, problem: self.problem() },
                );
                assert(diagnostics@ =~= old(diagnostics)@ + self@.reports(span, file));
            },
        }
    }
}

} // verus!
