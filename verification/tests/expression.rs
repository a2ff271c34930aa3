use m68kasm::ast::{BinaryOp, Expression, Span, UnaryOp};
use m68kasm::error::{EvalError, SymbolError};
use m68kasm::expression::{map_op_bin, parse_expression};
use m68kasm::symbols::{FailingMap, NonFailingMap, SymbolMap, SymbolTable};

fn lit(v: i32) -> Expression {
    Expression::Literal(v)
}

fn sym(name: &str, start: usize) -> Expression {
    Expression::Symbol(name.to_string(), Span { start, end: start + name.len() })
}

fn bin(op: BinaryOp, l: Expression, r: Expression) -> Expression {
    Expression::Binary(op, Box::new(l), Box::new(r))
}

fn neg(e: Expression) -> Expression {
    Expression::Unary(UnaryOp::Neg, Box::new(e))
}

fn not(e: Expression) -> Expression {
    Expression::Unary(UnaryOp::Not, Box::new(e))
}

fn value(e: &Expression) -> Result<i32, EvalError> {
    parse_expression(e, &SymbolTable::new(), 0)
}

fn undefined(name_at: &[(usize, usize)], file: usize) -> EvalError {
    EvalError::UndefinedSymbols(
        name_at
            .iter()
            .map(|(start, end)| SymbolError::new(Span { start: *start, end: *end }, file))
            .collect(),
    )
}

#[test]
fn arithmetic_wraps_around() {
    assert_eq!(value(&bin(BinaryOp::Add, lit(i32::MAX), lit(1))), Ok(i32::MIN));
    assert_eq!(value(&bin(BinaryOp::Sub, lit(i32::MIN), lit(1))), Ok(i32::MAX));
    assert_eq!(value(&bin(BinaryOp::Mul, lit(0x10000), lit(0x10000))), Ok(0));
    assert_eq!(value(&bin(BinaryOp::Mul, lit(i32::MAX), lit(2))), Ok(-2));
    assert_eq!(value(&bin(BinaryOp::Mul, lit(-7), lit(6))), Ok(-42));
    assert_eq!(value(&neg(lit(i32::MIN))), Ok(i32::MIN));
    assert_eq!(value(&neg(lit(5))), Ok(-5));
    assert_eq!(value(&bin(BinaryOp::Div, lit(i32::MIN), lit(-1))), Ok(i32::MIN));
    assert_eq!(value(&bin(BinaryOp::Mod, lit(i32::MIN), lit(-1))), Ok(0));
}

#[test]
fn division_rounds_towards_zero() {
    assert_eq!(value(&bin(BinaryOp::Div, lit(7), lit(2))), Ok(3));
    assert_eq!(value(&bin(BinaryOp::Div, lit(-7), lit(2))), Ok(-3));
    assert_eq!(value(&bin(BinaryOp::Div, lit(7), lit(-2))), Ok(-3));
    assert_eq!(value(&bin(BinaryOp::Div, lit(-7), lit(-2))), Ok(3));
    assert_eq!(value(&bin(BinaryOp::Mod, lit(7), lit(2))), Ok(1));
    assert_eq!(value(&bin(BinaryOp::Mod, lit(-7), lit(2))), Ok(-1));
    assert_eq!(value(&bin(BinaryOp::Mod, lit(7), lit(-2))), Ok(1));
    assert_eq!(value(&bin(BinaryOp::Mod, lit(-7), lit(-2))), Ok(-1));
    assert_eq!(value(&bin(BinaryOp::Div, lit(0), lit(5))), Ok(0));
}

#[test]
fn division_by_zero_is_an_error() {
    assert_eq!(value(&bin(BinaryOp::Div, lit(1), lit(0))), Err(EvalError::DivisionByZero));
    assert_eq!(value(&bin(BinaryOp::Mod, lit(1), lit(0))), Err(EvalError::DivisionByZero));
    // it comes before undefined symbols, on either side
    let e = bin(BinaryOp::Add, sym("a", 0), bin(BinaryOp::Div, lit(1), lit(0)));
    assert_eq!(value(&e), Err(EvalError::DivisionByZero));
    let e = bin(BinaryOp::Add, bin(BinaryOp::Div, lit(1), lit(0)), sym("a", 0));
    assert_eq!(value(&e), Err(EvalError::DivisionByZero));
    assert_eq!(value(&neg(bin(BinaryOp::Mod, lit(1), lit(0)))), Err(EvalError::DivisionByZero));
    // a divisor that is not known is no division by zero
    let e = bin(BinaryOp::Div, lit(1), sym("a", 4));
    assert_eq!(value(&e), Err(undefined(&[(4, 5)], 0)));
}

#[test]
fn bits_and_shifts() {
    assert_eq!(value(&bin(BinaryOp::And, lit(0b1100), lit(0b1010))), Ok(0b1000));
    assert_eq!(value(&bin(BinaryOp::Or, lit(0b1100), lit(0b1010))), Ok(0b1110));
    assert_eq!(value(&bin(BinaryOp::And, lit(-1), lit(0x7FFF_FFFF))), Ok(0x7FFF_FFFF));
    assert_eq!(value(&not(lit(0))), Ok(-1));
    assert_eq!(value(&not(lit(0x0F))), Ok(-16));
    assert_eq!(value(&bin(BinaryOp::Shl, lit(1), lit(4))), Ok(16));
    assert_eq!(value(&bin(BinaryOp::Shl, lit(1), lit(31))), Ok(i32::MIN));
    assert_eq!(value(&bin(BinaryOp::Shl, lit(3), lit(31))), Ok(i32::MIN));
    assert_eq!(value(&bin(BinaryOp::Shl, lit(1), lit(32))), Ok(1));
    assert_eq!(value(&bin(BinaryOp::Shl, lit(1), lit(33))), Ok(2));
    assert_eq!(value(&bin(BinaryOp::Shl, lit(1), lit(-1))), Ok(i32::MIN));
    assert_eq!(value(&bin(BinaryOp::Shr, lit(256), lit(4))), Ok(16));
    assert_eq!(value(&bin(BinaryOp::Shr, lit(-256), lit(4))), Ok(-16));
    assert_eq!(value(&bin(BinaryOp::Shr, lit(-1), lit(31))), Ok(-1));
    assert_eq!(value(&bin(BinaryOp::Shr, lit(8), lit(35))), Ok(1));
}

#[test]
fn operators_by_themselves() {
    assert_eq!(BinaryOp::Add.compute(1, 2), Some(3));
    assert_eq!(BinaryOp::Sub.compute(1, 2), Some(-1));
    assert_eq!(BinaryOp::Mul.compute(3, 4), Some(12));
    assert_eq!(BinaryOp::Div.compute(9, 0), None);
    assert_eq!(BinaryOp::Mod.compute(9, 0), None);
    assert_eq!(BinaryOp::Div.compute(9, 4), Some(2));
    assert_eq!(BinaryOp::Mod.compute(9, 4), Some(1));
    assert_eq!(UnaryOp::Neg.compute(9), -9);
    assert_eq!(UnaryOp::Not.compute(9), -10);
}

#[test]
fn symbols_are_looked_up() {
    let mut table = SymbolTable::new();
    assert!(table.insert("one".to_string(), 1));
    assert!(table.insert("high".to_string(), 0xFFFF_FFFE));
    assert_eq!(parse_expression(&sym("one", 0), &table, 0), Ok(1));
    assert_eq!(parse_expression(&sym("high", 0), &table, 0), Ok(-2));
    let e = bin(BinaryOp::Add, sym("one", 0), sym("high", 4));
    assert_eq!(parse_expression(&e, &table, 0), Ok(-1));
    assert_eq!(parse_expression(&sym("One", 3), &table, 9), Err(undefined(&[(3, 6)], 9)));
}

#[test]
fn undefined_symbols_add_up_from_left_to_right() {
    let mut table = SymbolTable::new();
    assert!(table.insert("known".to_string(), 1));
    let e = bin(
        BinaryOp::Mul,
        bin(BinaryOp::Add, sym("a", 0), sym("known", 2)),
        bin(BinaryOp::Sub, neg(sym("b", 10)), bin(BinaryOp::Shl, sym("c", 14), sym("a", 18))),
    );
    assert_eq!(
        parse_expression(&e, &table, 2),
        Err(undefined(&[(0, 1), (10, 11), (14, 15), (18, 19)], 2))
    );
    assert_eq!(parse_expression(&e, &FailingMap(&NonFailingMap(&table)), 2), Err(undefined(&[(0, 1), (10, 11), (14, 15), (18, 19)], 2)));
}

#[test]
fn permissive_evaluation_always_has_a_value() {
    let table = SymbolTable::new();
    let lenient = NonFailingMap(&table);
    assert_eq!(parse_expression(&sym("a", 0), &lenient, 0), Ok(0));
    let e = bin(BinaryOp::Add, lit(5), bin(BinaryOp::Mul, sym("a", 0), lit(3)));
    assert_eq!(parse_expression(&e, &lenient, 0), Ok(5));
    let e = bin(BinaryOp::Add, lit(5), bin(BinaryOp::Div, lit(9), sym("a", 0)));
    assert_eq!(parse_expression(&e, &lenient, 0), Ok(5));
    let e = bin(BinaryOp::Mod, lit(9), lit(0));
    assert_eq!(parse_expression(&e, &lenient, 0), Ok(0));
    assert!(lenient.is_permissive());
    assert!(!table.is_permissive());
    assert!(!FailingMap(&lenient).is_permissive());
}

#[test]
fn adding_zero_and_multiplying_by_one_change_nothing() {
    let mut table = SymbolTable::new();
    assert!(table.insert("x".to_string(), 0x8000_0000));
    let build: [fn() -> Expression; 5] = [
        || lit(42),
        || lit(i32::MIN),
        || sym("x", 0),
        || bin(BinaryOp::Mul, sym("x", 0), lit(3)),
        || sym("missing", 4),
    ];
    for e in build {
        let plain = parse_expression(&e(), &table, 1);
        assert_eq!(parse_expression(&bin(BinaryOp::Add, e(), lit(0)), &table, 1), plain);
        assert_eq!(parse_expression(&bin(BinaryOp::Add, lit(0), e()), &table, 1), plain);
        assert_eq!(parse_expression(&bin(BinaryOp::Sub, e(), lit(0)), &table, 1), plain);
        assert_eq!(parse_expression(&bin(BinaryOp::Mul, e(), lit(1)), &table, 1), plain);
    }
}

#[test]
fn both_sides_of_an_operator_are_combined() {
    let errors = |spans: &[(usize, usize)]| Err(undefined(spans, 0));
    assert_eq!(map_op_bin(Ok(6), Ok(3), BinaryOp::Sub), Ok(3));
    assert_eq!(map_op_bin(Ok(6), Ok(0), BinaryOp::Div), Err(EvalError::DivisionByZero));
    assert_eq!(map_op_bin(errors(&[(0, 1)]), Ok(3), BinaryOp::Add), errors(&[(0, 1)]));
    assert_eq!(map_op_bin(Ok(3), errors(&[(0, 1)]), BinaryOp::Add), errors(&[(0, 1)]));
    assert_eq!(
        map_op_bin(errors(&[(0, 1), (2, 3)]), errors(&[(4, 5)]), BinaryOp::Add),
        errors(&[(0, 1), (2, 3), (4, 5)])
    );
    assert_eq!(
        map_op_bin(errors(&[(0, 1)]), Err(EvalError::DivisionByZero), BinaryOp::Add),
        Err(EvalError::DivisionByZero)
    );
    assert_eq!(
        map_op_bin(Err(EvalError::DivisionByZero), errors(&[(0, 1)]), BinaryOp::Add),
        Err(EvalError::DivisionByZero)
    );
}
