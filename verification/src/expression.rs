//! The value of an expression: signed 32-bit arithmetic that wraps around.

use vstd::prelude::*;
use crate::ast::{BinaryOp, Expression, UnaryOp};
use crate::error::{evaluation_of, EvalError, Evaluation, SymbolError, SymbolResult};
use crate::symbols::{Lookup, SymbolMap};

verus! {

/// The signed 32-bit value that has the same low 32 bits as `x`.
pub open spec fn wrap32(x: int) -> i32 {
    let m = x % 0x1_0000_0000;
    if m > i32::MAX {
        (m - 0x1_0000_0000) as i32
    } else {
        m as i32
    }
}

/// The quotient of `a` by `b`, rounded towards zero.
pub open spec fn quotient(a: int, b: int) -> int {
    let q = (if a >= 0 { a } else { -a }) / (if b >= 0 { b } else { -b });
    if (a >= 0) == (b >= 0) {
        q
    } else {
        -q
    }
}

/// What is left of `a` when `b` is taken out of it `quotient(a, b)` times.
pub open spec fn remainder(a: int, b: int) -> int {
    let r = (if a >= 0 { a } else { -a }) % (if b >= 0 { b } else { -b });
    if a >= 0 {
        r
    } else {
        -r
    }
}

impl UnaryOp {
    /// The result of the operator on `a`.
    pub open spec fn apply(self, a: i32) -> i32 {
        match self {
            UnaryOp::Neg => wrap32(-a),
            UnaryOp::Not => !a,
        }
    }

    /// The result of the operator on `a`.
    pub fn compute(&self, a: i32) -> (res: i32)
        ensures
            res == self.apply(a),
    {
        match self {
            UnaryOp::Neg => 0i32.wrapping_sub(a),
            UnaryOp::Not => !a,
        }
    }
}

impl BinaryOp {
    /// The result of the operator on `a` and `b`, or `None` for a division
    /// by zero.
    pub open spec fn apply(self, a: i32, b: i32) -> Option<i32> {
        match self {
            BinaryOp::Add => Some(wrap32(a + b)),
            BinaryOp::Sub => Some(wrap32(a - b)),
            BinaryOp::Mul => Some(wrap32(a * b)),
            BinaryOp::Div => if b == 0 {
                None
            } else {
                Some(wrap32(quotient(a as int, b as int)))
            },
            BinaryOp::Mod => if b == 0 {
                None
            } else {
                Some(wrap32(remainder(a as int, b as int)))
            },
            BinaryOp::And => Some(a & b),
            BinaryOp::Or => Some(a | b),
            BinaryOp::Shl => Some(a << ((b as u32) % 32u32)),
            BinaryOp::Shr => Some(a >> ((b as u32) % 32u32)),
        }
    }

    /// The result of the operator on `a` and `b`, or `None` for a division
    /// by zero.
    pub fn compute(&self, a: i32, b: i32) -> (res: Option<i32>)
        ensures
            res == self.apply(a, b),
    {
        match self {
            BinaryOp::Add => Some(a.wrapping_add(b)),
            BinaryOp::Sub => Some(a.wrapping_sub(b)),
            BinaryOp::Mul => Some(a.wrapping_mul(b)),
            BinaryOp::Div => if b == 0 {
                None
            } else {
                match a.checked_div(b) {
                    Some(q) => Some(q),
                    None => Some(i32::MIN),
                }
            },
            BinaryOp::Mod => if b == 0 {
                None
            } else {
                match a.checked_rem(b) {
                    Some(r) => Some(r),
                    None => Some(0),
                }
            },
            BinaryOp::And => Some(a & b),
            BinaryOp::Or => Some(a | b),
            BinaryOp::Shl => Some(a.wrapping_shl(#[verifier::truncate] (b as u32))),
            BinaryOp::Shr => Some(a.wrapping_shr(#[verifier::truncate] (b as u32))),
        }
    }
}

/// What the two sides of a binary operator come to together: the result of
/// the operator where both have a value, else every undefined symbol of
/// both; a division by zero on either side comes first.
pub open spec fn combine(op: BinaryOp, lhs: Evaluation, rhs: Evaluation) -> Evaluation {
    match (lhs, rhs) {
        (Evaluation::DivisionByZero, _) => Evaluation::DivisionByZero,
        (_, Evaluation::DivisionByZero) => Evaluation::DivisionByZero,
        (Evaluation::Value(a), Evaluation::Value(b)) => match op.apply(a, b) {
            Some(v) => Evaluation::Value(v),
            None => Evaluation::DivisionByZero,
        },
        (Evaluation::Undefined(l), Evaluation::Undefined(r)) => Evaluation::Undefined(l + r),
        (Evaluation::Undefined(l), Evaluation::Value(_)) => Evaluation::Undefined(l),
        (Evaluation::Value(_), Evaluation::Undefined(r)) => Evaluation::Undefined(r),
    }
}

/// In a permissive evaluation a division by zero counts as zero.
pub open spec fn soften(permissive: bool, e: Evaluation) -> Evaluation {
    if permissive && e is DivisionByZero {
        Evaluation::Value(0)
    } else {
        e
    }
}

/// What `expr` comes to under the lookup `look`, in the file `file`.
pub open spec fn eval(expr: Expression, look: Lookup, file: usize) -> Evaluation
    decreases expr,
{
    match expr {
        Expression::Literal(v) => Evaluation::Value(v),
        Expression::Symbol(name, span) => match look.get(name@) {
            Some(v) => Evaluation::Value(v as i32),
            None => Evaluation::Undefined(seq![SymbolError { symbol_loc: span, file }]),
        },
        Expression::Unary(op, inner) => match eval(*inner, look, file) {
            Evaluation::Value(v) => Evaluation::Value(op.apply(v)),
            other => other,
        },
        Expression::Binary(op, lhs, rhs) => soften(
            look.permissive,
            combine(op, eval(*lhs, look, file), eval(*rhs, look, file)),
        ),
    }
}

/// Appends `more` to `errors`.
pub fn append_errors(errors: &mut Vec<SymbolError>, more: &Vec<SymbolError>)
    ensures
        final(errors)@ == old(errors)@ + more@,
{
    let mut i: usize = 0;
    while i < more.len()
        invariant
            i <= more.len(),
            errors@ == old(errors)@ + more@.subrange(0, i as int),
        decreases more.len() - i,
    {
        errors.push(more[i]);
        i += 1;
        assert(errors@ =~= old(errors)@ + more@.subrange(0, i as int));
    }
    assert(more@.subrange(0, more.len() as int) =~= more@);
}

/// Applies `op` to the two sides where both have a value; else hands on
/// the errors of both.
pub fn map_op_bin(lhs: SymbolResult<i32>, rhs: SymbolResult<i32>, op: BinaryOp) -> (res:
    SymbolResult<i32>)
    ensures
        evaluation_of(res) == combine(op, evaluation_of(lhs), evaluation_of(rhs)),
{
    match (lhs, rhs) {
        (Err(EvalError::DivisionByZero), _) => Err(EvalError::DivisionByZero),
        (_, Err(EvalError::DivisionByZero)) => Err(EvalError::DivisionByZero),
        (Ok(a), Ok(b)) => match op.compute(a, b) {
            Some(v) => Ok(v),
            None => Err(EvalError::DivisionByZero),
        },
        (Err(EvalError::UndefinedSymbols(mut l)), Err(EvalError::UndefinedSymbols(r))) => {
            append_errors(&mut l, &r);
            Err(EvalError::UndefinedSymbols(l))
        },
        (Err(EvalError::UndefinedSymbols(l)), Ok(_)) => Err(EvalError::UndefinedSymbols(l)),
        (Ok(_), Err(EvalError::UndefinedSymbols(r))) => Err(EvalError::UndefinedSymbols(r)),
    }
}

/// Evaluates `expr` with the symbols that `symbols` gives.
pub fn parse_expression<M: SymbolMap>(expr: &Expression, symbols: &M, current_file: usize) -> (res:
    SymbolResult<i32>)
    ensures
        evaluation_of(res) == eval(*expr, symbols.lookup(), current_file),
    decreases expr,
{
    match expr {
        Expression::Literal(v) => Ok(*v),
        Expression::Symbol(name, span) => match symbols.get(name.as_str()) {
            Some(v) => Ok(#[verifier::truncate] (v as i32)),
            None => {
                let mut errors: Vec<SymbolError> = Vec::new();
                errors.push(SymbolError::new(*span, current_file));
                assert(errors@ =~= seq![SymbolError { symbol_loc: *span, file: current_file }]);
                Err(EvalError::UndefinedSymbols(errors))
            },
        },
        Expression::Unary(op, inner) => match parse_expression(inner, symbols, current_file) {
            Ok(v) => Ok(op.compute(v)),
            Err(e) => Err(e),
        },
        Expression::Binary(op, lhs, rhs) => {
            let l = parse_expression(lhs, symbols, current_file);
            let r = parse_expression(rhs, symbols, current_file);
            let both = map_op_bin(l, r, *op);
            if symbols.is_permissive() {
                match both {
                    Err(EvalError::DivisionByZero) => Ok(0),
                    other => other,
                }
            } else {
                both
            }
        },
    }
}

/// A permissive evaluation always has a value.
pub proof fn lemma_permissive_has_value(expr: Expression, look: Lookup, file: usize)
    requires
        look.permissive,
    ensures
        eval(expr, look, file) is Value,
    decreases expr,
{
    match expr {
        Expression::Unary(_, inner) => {
            lemma_permissive_has_value(*inner, look, file);
        },
        Expression::Binary(_, lhs, rhs) => {
            lemma_permissive_has_value(*lhs, look, file);
            lemma_permissive_has_value(*rhs, look, file);
        },
        _ => {},
    }
}

/// An evaluation that fails on undefined symbols names at least one.
pub proof fn lemma_undefined_is_not_empty(expr: Expression, look: Lookup, file: usize)
    ensures
        eval(expr, look, file) matches Evaluation::Undefined(errors) ==> errors.len() > 0,
    decreases expr,
{
    match expr {
        Expression::Unary(_, inner) => {
            lemma_undefined_is_not_empty(*inner, look, file);
        },
        Expression::Binary(_, lhs, rhs) => {
            lemma_undefined_is_not_empty(*lhs, look, file);
            lemma_undefined_is_not_empty(*rhs, look, file);
        },
        _ => {},
    }
}

/// Adding zero on either side, subtracting zero and multiplying by one
/// leave what an expression comes to unchanged.
pub proof fn lemma_arithmetic_identities(expr: Expression, look: Lookup, file: usize)
    ensures
        eval(
            Expression::Binary(BinaryOp::Add, Box::new(expr), Box::new(Expression::Literal(0))),
            look,
            file,
        ) == eval(expr, look, file),
        eval(
            Expression::Binary(BinaryOp::Add, Box::new(Expression::Literal(0)), Box::new(expr)),
            look,
            file,
        ) == eval(expr, look, file),
        eval(
            Expression::Binary(BinaryOp::Sub, Box::new(expr), Box::new(Expression::Literal(0))),
            look,
            file,
        ) == eval(expr, look, file),
        eval(
            Expression::Binary(BinaryOp::Mul, Box::new(expr), Box::new(Expression::Literal(1))),
            look,
            file,
        ) == eval(expr, look, file),
{
    reveal_with_fuel(eval, 2);
    if look.permissive {
        lemma_permissive_has_value(expr, look, file);
    }
}

/// A value that an expression has when a missing symbol is an error stays
/// the same when more symbols are defined.
pub proof fn lemma_value_is_kept(
    expr: Expression,
    table: Map<Seq<char>, u32>,
    larger: Map<Seq<char>, u32>,
    file: usize,
)
    requires
        table.submap_of(larger),
        eval(expr, Lookup { table, permissive: false }, file) is Value,
    ensures
        eval(expr, Lookup { table: larger, permissive: false }, file) == eval(
            expr,
            Lookup { table, permissive: false },
            file,
        ),
    decreases expr,
{
    match expr {
        Expression::Unary(_, inner) => {
            lemma_value_is_kept(*inner, table, larger, file);
        },
        Expression::Binary(_, lhs, rhs) => {
            lemma_value_is_kept(*lhs, table, larger, file);
            lemma_value_is_kept(*rhs, table, larger, file);
        },
        _ => {},
    }
}

} // verus!
