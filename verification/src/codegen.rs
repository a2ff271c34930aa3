//! From a statement to its code: the operands are evaluated, the operation
//! is matched against the forms that it can take, and the instruction that
//! results is encoded.

use vstd::prelude::*;
use crate::addressing::{
    AbsoluteLong,
    AbsoluteShort,
    An,
    Dn,
    ImmediateData,
    Indirect,
    IndirectDisp,
    IndirectPostInc,
    IndirectPreDec,
    LeaFirstArg,
    SrcEA,
};
use crate::ast::{
    Body,
    DataItem,
    Directive,
    Expression,
    Label,
    Mnemonic,
    Operand,
    Operation,
    Span,
    Statement,
};
use crate::bytes::{be16, be32, push_all, push_be16, push_be32};
use crate::error::{
    code_error,
    evaluation_of,
    lift,
    lift_vec,
    CodeError,
    EvalError,
    Evaluation,
    Failure,
};
use crate::expression::{append_errors, eval, parse_expression, wrap32};
use crate::instruction::Instruction;
use crate::size::{IntSize, WordSize};
use crate::symbols::{FailingMap, Lookup, SymbolMap};

verus! {

impl Operand {
    /// The expression that the operand holds, where it holds one.
    pub open spec fn expression(self) -> Option<Expression> {
        match self {
            Operand::IndirectDisp(e, _) => Some(e),
            Operand::AbsoluteShort(e) => Some(e),
            Operand::AbsoluteLong(e) => Some(e),
            Operand::Immediate(e) => Some(e),
            _ => None,
        }
    }

    /// What the operand's expression comes to; zero where it holds none.
    pub open spec fn evaluation(self, look: Lookup, file: usize) -> Evaluation {
        match self.expression() {
            Some(e) => eval(e, look, file),
            None => Evaluation::Value(0),
        }
    }

    /// The effective address that the operand names, where it names one,
    /// when its expression has the value `value` and the operation the size
    /// `size`.
    pub open spec fn address(self, value: i32, size: IntSize) -> Option<SrcEA> {
        match self {
            Operand::Dn(r) => Some(SrcEA::Dn(r)),
            Operand::An(r) => Some(SrcEA::An(r)),
            Operand::Indirect(r) => Some(SrcEA::Indirect(Indirect(r))),
            Operand::IndirectPostInc(r) => Some(SrcEA::IndirectPostInc(IndirectPostInc(r))),
            Operand::IndirectPreDec(r) => Some(SrcEA::IndirectPreDec(IndirectPreDec(r))),
            Operand::IndirectDisp(_, r) => Some(
                SrcEA::IndirectDisp(IndirectDisp(value as u16, r)),
            ),
            Operand::AbsoluteShort(_) => Some(SrcEA::AbsoluteShort(AbsoluteShort(value as u16))),
            Operand::AbsoluteLong(_) => Some(SrcEA::AbsoluteLong(AbsoluteLong(value as u32))),
            Operand::Immediate(_) => Some(SrcEA::ImmediateData(ImmediateData { size, value })),
            Operand::Sr => None,
            Operand::Usp => None,
        }
    }

    /// The address register that the operand is, where it is one.
    pub open spec fn address_register(self) -> Option<An> {
        match self {
            Operand::An(r) => Some(r),
            _ => None,
        }
    }

    /// The data register that the operand is, where it is one.
    pub open spec fn data_register(self) -> Option<Dn> {
        match self {
            Operand::Dn(r) => Some(r),
            _ => None,
        }
    }

    /// Whether the operand names an address for a branch to go to.
    pub open spec fn is_target(self) -> bool {
        self is AbsoluteLong || self is AbsoluteShort
    }

    /// The value of the expression that the operand holds; zero where it
    /// holds none.
    pub fn evaluate<M: SymbolMap>(&self, symbols: &M, current_file: usize) -> (res: Result<
        i32,
        EvalError,
    >)
        ensures
            evaluation_of(res) == self.evaluation(symbols.lookup(), current_file),
    {
        match self {
            Operand::IndirectDisp(e, _) => parse_expression(e, symbols, current_file),
            Operand::AbsoluteShort(e) => parse_expression(e, symbols, current_file),
            Operand::AbsoluteLong(e) => parse_expression(e, symbols, current_file),
            Operand::Immediate(e) => parse_expression(e, symbols, current_file),
            _ => Ok(0),
        }
    }

    /// The effective address that the operand names, where it names one,
    /// when its expression has the value `value` and the operation the size
    /// `size`.
    pub fn to_address(&self, value: i32, size: IntSize) -> (res: Option<SrcEA>)
        ensures
            res == self.address(value, size),
    {
        match self {
            Operand::Dn(r) => Some(SrcEA::Dn(*r)),
            Operand::An(r) => Some(SrcEA::An(*r)),
            Operand::Indirect(r) => Some(SrcEA::Indirect(Indirect(*r))),
            Operand::IndirectPostInc(r) => Some(SrcEA::IndirectPostInc(IndirectPostInc(*r))),
            Operand::IndirectPreDec(r) => Some(SrcEA::IndirectPreDec(IndirectPreDec(*r))),
            Operand::IndirectDisp(_, r) => Some(
                SrcEA::IndirectDisp(IndirectDisp(#[verifier::truncate] (value as u16), *r)),
            ),
            Operand::AbsoluteShort(_) => Some(
                SrcEA::AbsoluteShort(AbsoluteShort(#[verifier::truncate] (value as u16))),
            ),
            Operand::AbsoluteLong(_) => Some(
                SrcEA::AbsoluteLong(AbsoluteLong(#[verifier::truncate] (value as u32))),
            ),
            Operand::Immediate(_) => Some(SrcEA::ImmediateData(ImmediateData { size, value })),
            Operand::Sr => None,
            Operand::Usp => None,
        }
    }

    pub fn to_address_register(&self) -> (res: Option<An>)
        ensures
            res == self.address_register(),
    {
        match self {
            Operand::An(r) => Some(*r),
            _ => None,
        }
    }

    pub fn to_data_register(&self) -> (res: Option<Dn>)
        ensures
            res == self.data_register(),
    {
        match self {
            Operand::Dn(r) => Some(*r),
            _ => None,
        }
    }

    pub fn targets(&self) -> (res: bool)
        ensures
            res == self.is_target(),
    {
        match self {
            Operand::AbsoluteLong(_) => true,
            Operand::AbsoluteShort(_) => true,
            _ => false,
        }
    }

    pub fn is_immediate(&self) -> (res: bool)
        ensures
            res == (self is Immediate),
    {
        match self {
            Operand::Immediate(_) => true,
            _ => false,
        }
    }

    pub fn is_sr(&self) -> (res: bool)
        ensures
            res == (self is Sr),
    {
        match self {
            Operand::Sr => true,
            _ => false,
        }
    }

    pub fn is_usp(&self) -> (res: bool)
        ensures
            res == (self is Usp),
    {
        match self {
            Operand::Usp => true,
            _ => false,
        }
    }
}

/// The mode and register bits and the extension bytes of the effective
/// address that `operand` names, for an operation of size `size`.
pub open spec fn mode_reg_extra(operand: Operand, size: IntSize, look: Lookup, file: usize)
    -> Result<(u8, u8, Seq<u8>), Failure> {
    match operand.evaluation(look, file).outcome() {
        Err(f) => Err(f),
        Ok(value) => match operand.address(value, size) {
            Some(ea) => Ok((ea.mode(), ea.register(), ea.extension())),
            None => Err(Failure::InvalidOperands),
        },
    }
}

/// Evaluates the expression of `operand` and gives the three parts of its
/// effective address.
pub fn get_mode_reg_extra_for_ea<M: SymbolMap>(
    operand: &Operand,
    size: IntSize,
    symbols: &M,
    current_file: usize,
) -> (res: Result<(u8, u8, Vec<u8>), CodeError>)
    ensures
        match res {
            Ok((mode, reg, extra)) => mode_reg_extra(
                *operand,
                size,
                symbols.lookup(),
                current_file,
            ) == Ok::<(u8, u8, Seq<u8>), Failure>((mode, reg, extra@)),
            Err(e) => mode_reg_extra(*operand, size, symbols.lookup(), current_file) == Err::<
                (u8, u8, Seq<u8>),
                Failure,
            >(e@),
        },
{
    match operand.evaluate(symbols, current_file) {
        Err(e) => Err(code_error(e)),
        Ok(value) => match operand.to_address(value, size) {
            Some(ea) => {
                let mut extra: Vec<u8> = Vec::new();
                ea.push_extension(&mut extra);
                assert(extra@ =~= ea.extension());
                Ok((ea.mode_bits(), ea.register_bits(), extra))
            },
            None => Err(CodeError::InvalidOperands),
        },
    }
}

/// The sizes that an operation on an address register can have; a word
/// where none is written.
pub open spec fn word_size(size: Option<IntSize>) -> Option<WordSize> {
    match size {
        None => Some(WordSize::W),
        Some(IntSize::W) => Some(WordSize::W),
        Some(IntSize::L) => Some(WordSize::L),
        Some(IntSize::B) => None,
    }
}

/// The size of an operation on an address register; a word where none
/// is written, and none for a byte.
pub fn to_word_size(size: Option<IntSize>) -> (res: Option<WordSize>)
    ensures
        res == word_size(size),
{
    match size {
        None => Some(WordSize::W),
        Some(IntSize::W) => Some(WordSize::W),
        Some(IntSize::L) => Some(WordSize::L),
        Some(IntSize::B) => None,
    }
}

/// The size that is written, a word where none is.
pub open spec fn size_or_word(size: Option<IntSize>) -> IntSize {
    match size {
        Some(s) => s,
        None => IntSize::W,
    }
}

/// The size that is written, a word where none is.
pub fn to_size_or_word(size: Option<IntSize>) -> (res: IntSize)
    ensures
        res == size_or_word(size),
{
    match size {
        Some(s) => s,
        None => IntSize::W,
    }
}

/// The 16-bit displacement of a branch at `pc` to `target`: the low 16 bits
/// of `target - (pc + 2)`.
pub open spec fn displacement(target: i32, pc: u32) -> i16 {
    wrap32(target - (pc as i32) - 2) as i16
}

/// The 16-bit displacement of a branch at `pc` to `target`.
pub fn to_displacement(target: i32, pc: u32) -> (res: i16)
    ensures
        res == displacement(target, pc),
{
    let base: i32 = #[verifier::truncate] (pc as i32);
    let distance: i32 = target.wrapping_sub(base).wrapping_sub(2);
    #[verifier::truncate] (distance as i16)
}

/// The instruction that an operation without operands stands for.
pub open spec fn form0(mnemonic: Mnemonic) -> Result<Instruction, Failure> {
    match mnemonic {
        Mnemonic::NOP => Ok(Instruction::NOP),
        Mnemonic::RTS => Ok(Instruction::RTS),
        Mnemonic::RTE => Ok(Instruction::RTE),
        Mnemonic::BKPT => Ok(Instruction::BKPT(0)),
        _ => Err(Failure::InvalidOperands),
    }
}

/// The instruction that an operation with the one operand `a`, of value
/// `va`, stands for at `pc`.
pub open spec fn form1(
    mnemonic: Mnemonic,
    size: Option<IntSize>,
    a: Operand,
    va: i32,
    pc: u32,
    dry_run: bool,
) -> Result<Instruction, Failure> {
    match mnemonic {
        Mnemonic::PEA => match a.address(va, IntSize::L) {
            Some(ea) => Ok(Instruction::PEA(ea)),
            None => Err(Failure::InvalidOperands),
        },
        Mnemonic::JMP => match a.address(va, IntSize::L) {
            Some(ea) => Ok(Instruction::JMP(ea)),
            None => Err(Failure::InvalidOperands),
        },
        Mnemonic::UNLK => match a.address_register() {
            Some(an) => Ok(Instruction::UNLK(an)),
            None => Err(Failure::InvalidOperands),
        },
        Mnemonic::CLR => match a.address(va, size_or_word(size)) {
            Some(ea) => Ok(Instruction::CLR(size_or_word(size), ea)),
            None => Err(Failure::InvalidOperands),
        },
        Mnemonic::Bcc(cc) => if a.is_target() {
            Ok(Instruction::Bcc(cc, if dry_run { 0i16 } else { displacement(va, pc) }))
        } else {
            Err(Failure::InvalidOperands)
        },
        Mnemonic::BSR => if a.is_target() {
            Ok(Instruction::BSR(if dry_run { 0i16 } else { displacement(va, pc) }))
        } else {
            Err(Failure::InvalidOperands)
        },
        Mnemonic::BKPT => if a is Immediate {
            Ok(Instruction::BKPT(va as u32))
        } else {
            Err(Failure::InvalidOperands)
        },
        Mnemonic::TRAP => if a is Immediate {
            Ok(Instruction::TRAP(va as u32))
        } else {
            Err(Failure::InvalidOperands)
        },
        _ => Err(Failure::InvalidOperands),
    }
}

/// The instruction that moves the address `src` into `an`.
pub open spec fn form_move_address(size: Option<IntSize>, src: Option<SrcEA>, an: An) -> Result<
    Instruction,
    Failure,
> {
    match src {
        None => Err(Failure::InvalidOperands),
        Some(ea) => match word_size(size) {
            None => Err(Failure::InvalidSize),
            Some(ws) => Ok(Instruction::MOVEA(ws, ea, an)),
        },
    }
}

/// The instruction that `MOVE` with the operands `a` and `b` stands for.
pub open spec fn form_move(size: Option<IntSize>, a: Operand, va: i32, b: Operand, vb: i32)
    -> Result<Instruction, Failure> {
    if b is Sr {
        match a.address(va, IntSize::W) {
            Some(ea) => Ok(Instruction::MOVE_to_SR(ea)),
            None => Err(Failure::InvalidOperands),
        }
    } else if b is Usp {
        match a.address_register() {
            Some(an) => Ok(Instruction::MOVE_to_USP(an)),
            None => Err(Failure::InvalidOperands),
        }
    } else if a is Usp {
        match b.address_register() {
            Some(an) => Ok(Instruction::MOVE_from_USP(an)),
            None => Err(Failure::InvalidOperands),
        }
    } else {
        match (a.address(va, size_or_word(size)), b.address(vb, size_or_word(size))) {
            (Some(src), Some(dst)) => Ok(Instruction::MOVE(size_or_word(size), src, dst)),
            _ => Err(Failure::InvalidOperands),
        }
    }
}

/// The instruction that an operation with the two operands `a` and `b`, of
/// values `va` and `vb`, stands for.
pub open spec fn form2(
    mnemonic: Mnemonic,
    size: Option<IntSize>,
    a: Operand,
    va: i32,
    b: Operand,
    vb: i32,
) -> Result<Instruction, Failure> {
    match mnemonic {
        Mnemonic::MOVE => form_move(size, a, va, b, vb),
        Mnemonic::MOVEA => match b.address_register() {
            Some(an) => form_move_address(size, a.address(va, size_or_word(size)), an),
            None => Err(Failure::InvalidOperands),
        },
        Mnemonic::LEA => match (a.address(va, IntSize::L), b.address_register()) {
            (Some(ea), Some(an)) => match LeaFirstArg::of_src(ea) {
                Some(first) => Ok(Instruction::LEA(first, an)),
                None => Err(Failure::InvalidOperands),
            },
            _ => Err(Failure::InvalidOperands),
        },
        Mnemonic::LINK => match a.address_register() {
            Some(an) => if b is Immediate {
                Ok(Instruction::LINK(an, vb as u16))
            } else {
                Err(Failure::InvalidOperands)
            },
            None => Err(Failure::InvalidOperands),
        },
        Mnemonic::CMP => match (a.address(va, size_or_word(size)), b.data_register()) {
            (Some(ea), Some(dn)) => Ok(Instruction::CMP(size_or_word(size), ea, dn)),
            _ => Err(Failure::InvalidOperands),
        },
        Mnemonic::CMPI => if a is Immediate {
            match b.address(vb, size_or_word(size)) {
                Some(ea) => Ok(
                    Instruction::CMPI(ImmediateData { size: size_or_word(size), value: va }, ea),
                ),
                None => Err(Failure::InvalidOperands),
            }
        } else {
            Err(Failure::InvalidOperands)
        },
        Mnemonic::ADDA => match (a.address(va, size_or_word(size)), b.address_register()) {
            (Some(ea), Some(an)) => Ok(Instruction::ADDA(size_or_word(size), ea, an)),
            _ => Err(Failure::InvalidOperands),
        },
        Mnemonic::SUBA => match (a.address(va, size_or_word(size)), b.address_register()) {
            (Some(ea), Some(an)) => Ok(Instruction::SUBA(size_or_word(size), ea, an)),
            _ => Err(Failure::InvalidOperands),
        },
        Mnemonic::ANDI => if a is Immediate && b is Sr {
            Ok(Instruction::ANDI_to_SR(va as u16))
        } else {
            Err(Failure::InvalidOperands)
        },
        _ => Err(Failure::InvalidOperands),
    }
}

/// Whether the operation is a branch, whose operand a dry run leaves
/// unread.
pub open spec fn is_branch(mnemonic: Mnemonic) -> bool {
    mnemonic is Bcc || mnemonic is BSR
}

/// What the expressions of `operands` come to, one value for each, or the
/// undefined symbols of all of them.
pub open spec fn operand_values(operands: Seq<Operand>, look: Lookup, file: usize) -> Result<
    Seq<i32>,
    Failure,
>
    decreases operands.len(),
{
    if operands.len() == 0 {
        Ok(Seq::empty())
    } else {
        join(
            operand_values(operands.drop_last(), look, file),
            operands.last().evaluation(look, file),
        )
    }
}

/// The values so far with one more, or the errors so far with those of one
/// more; a division by zero comes before undefined symbols.
pub open spec fn join(so_far: Result<Seq<i32>, Failure>, next: Evaluation) -> Result<
    Seq<i32>,
    Failure,
> {
    match (so_far, next) {
        (Ok(values), Evaluation::Value(v)) => Ok(values.push(v)),
        (Ok(_), other) => Err(other.outcome()->Err_0),
        (Err(Failure::Undefined(a)), Evaluation::Undefined(b)) => Err(Failure::Undefined(a + b)),
        (Err(Failure::Undefined(_)), Evaluation::DivisionByZero) => Err(Failure::DivisionByZero),
        (Err(f), _) => Err(f),
    }
}

/// The instruction that `op` stands for at `pc`.
pub open spec fn resolve(op: Operation, pc: u32, look: Lookup, file: usize, dry_run: bool)
    -> Result<Instruction, Failure> {
    let values = if dry_run && is_branch(op.mnemonic) {
        Ok(Seq::new(op.operands@.len(), |i: int| 0i32))
    } else {
        operand_values(op.operands@, look, file)
    };
    match values {
        Err(f) => Err(f),
        Ok(v) => form(op, v, pc, dry_run),
    }
}

/// The instruction that `op` stands for at `pc` when the expressions of its
/// operands have the values `v`.
pub open spec fn form(op: Operation, v: Seq<i32>, pc: u32, dry_run: bool) -> Result<
    Instruction,
    Failure,
> {
    if op.operands@.len() == 0 {
        form0(op.mnemonic)
    } else if op.operands@.len() == 1 {
        form1(op.mnemonic, op.size, op.operands@[0], v[0], pc, dry_run)
    } else if op.operands@.len() == 2 {
        form2(op.mnemonic, op.size, op.operands@[0], v[0], op.operands@[1], v[1])
    } else {
        Err(Failure::InvalidOperands)
    }
}

/// The bytes of the instruction that `op` stands for at `pc`.
pub open spec fn instr_code(op: Operation, pc: u32, look: Lookup, file: usize, dry_run: bool)
    -> Result<Seq<u8>, Failure> {
    match resolve(op, pc, look, file, dry_run) {
        Ok(instruction) => Ok(instruction.bytes()),
        Err(f) => Err(f),
    }
}

fn join_values(so_far: Result<Vec<i32>, CodeError>, next: Result<i32, EvalError>) -> (res: Result<
    Vec<i32>,
    CodeError,
>)
    ensures
        lift_vec(res) == join(lift_vec(so_far), evaluation_of(next)),
{
    match (so_far, next) {
        (Ok(mut values), Ok(v)) => {
            values.push(v);
            Ok(values)
        },
        (Ok(_), Err(e)) => Err(code_error(e)),
        (Err(CodeError::UndefinedSymbols(mut a)), Err(EvalError::UndefinedSymbols(b))) => {
            append_errors(&mut a, &b);
            Err(CodeError::UndefinedSymbols(a))
        },
        (Err(CodeError::UndefinedSymbols(_)), Err(EvalError::DivisionByZero)) => Err(
            CodeError::DivisionByZero,
        ),
        (Err(f), _) => Err(f),
    }
}

/// Evaluates the expression of each operand.
pub fn evaluate_operands<M: SymbolMap>(operands: &Vec<Operand>, symbols: &M, current_file: usize)
    -> (res: Result<Vec<i32>, CodeError>)
    ensures
        lift_vec(res) == operand_values(operands@, symbols.lookup(), current_file),
{
    let mut so_far: Result<Vec<i32>, CodeError> = Ok(Vec::new());
    let mut i: usize = 0;
    assert(operands@.take(0) =~= Seq::<Operand>::empty());
    while i < operands.len()
        invariant
            i <= operands.len(),
            lift_vec(so_far) == operand_values(
                operands@.take(i as int),
                symbols.lookup(),
                current_file,
            ),
        decreases operands.len() - i,
    {
        let next = operands[i].evaluate(symbols, current_file);
        assert(operands@.take(i + 1).drop_last() =~= operands@.take(i as int));
        so_far = join_values(so_far, next);
        i += 1;
    }
    assert(operands@.take(i as int) =~= operands@);
    so_far
}

fn zeros(n: usize) -> (res: Vec<i32>)
    ensures
        res@ == Seq::new(n as nat, |i: int| 0i32),
{
    let mut res: Vec<i32> = Vec::new();
    let mut i: usize = 0;
    while i < n
        invariant
            i <= n,
            res@ == Seq::new(i as nat, |j: int| 0i32),
        decreases n - i,
    {
        res.push(0);
        i += 1;
        assert(res@ =~= Seq::new(i as nat, |j: int| 0i32));
    }
    res
}

fn build0(mnemonic: Mnemonic) -> (res: Result<Instruction, CodeError>)
    ensures
        lift(res) == form0(mnemonic),
{
    match mnemonic {
        Mnemonic::NOP => Ok(Instruction::NOP),
        Mnemonic::RTS => Ok(Instruction::RTS),
        Mnemonic::RTE => Ok(Instruction::RTE),
        Mnemonic::BKPT => Ok(Instruction::BKPT(0)),
        _ => Err(CodeError::InvalidOperands),
    }
}

fn build1(mnemonic: Mnemonic, size: Option<IntSize>, a: &Operand, va: i32, pc: u32, dry_run: bool)
    -> (res: Result<Instruction, CodeError>)
    ensures
        lift(res) == form1(mnemonic, size, *a, va, pc, dry_run),
{
    match mnemonic {
        Mnemonic::PEA => match a.to_address(va, IntSize::L) {
            Some(ea) => Ok(Instruction::PEA(ea)),
            None => Err(CodeError::InvalidOperands),
        },
        Mnemonic::JMP => match a.to_address(va, IntSize::L) {
            Some(ea) => Ok(Instruction::JMP(ea)),
            None => Err(CodeError::InvalidOperands),
        },
        Mnemonic::UNLK => match a.to_address_register() {
            Some(an) => Ok(Instruction::UNLK(an)),
            None => Err(CodeError::InvalidOperands),
        },
        Mnemonic::CLR => match a.to_address(va, to_size_or_word(size)) {
            Some(ea) => Ok(Instruction::CLR(to_size_or_word(size), ea)),
            None => Err(CodeError::InvalidOperands),
        },
        Mnemonic::Bcc(cc) => if a.targets() {
            Ok(Instruction::Bcc(cc, if dry_run { 0i16 } else { to_displacement(va, pc) }))
        } else {
            Err(CodeError::InvalidOperands)
        },
        Mnemonic::BSR => if a.targets() {
            Ok(Instruction::BSR(if dry_run { 0i16 } else { to_displacement(va, pc) }))
        } else {
            Err(CodeError::InvalidOperands)
        },
        Mnemonic::BKPT => if a.is_immediate() {
            Ok(Instruction::BKPT(#[verifier::truncate] (va as u32)))
        } else {
            Err(CodeError::InvalidOperands)
        },
        Mnemonic::TRAP => if a.is_immediate() {
            Ok(Instruction::TRAP(#[verifier::truncate] (va as u32)))
        } else {
            Err(CodeError::InvalidOperands)
        },
        _ => Err(CodeError::InvalidOperands),
    }
}

fn build_move_address(size: Option<IntSize>, src: Option<SrcEA>, an: An) -> (res: Result<
    Instruction,
    CodeError,
>)
    ensures
        lift(res) == form_move_address(size, src, an),
{
    match src {
        None => Err(CodeError::InvalidOperands),
        Some(ea) => match to_word_size(size) {
            None => Err(CodeError::InvalidSize),
            Some(ws) => Ok(Instruction::MOVEA(ws, ea, an)),
        },
    }
}

fn build_move(size: Option<IntSize>, a: &Operand, va: i32, b: &Operand, vb: i32) -> (res: Result<
    Instruction,
    CodeError,
>)
    ensures
        lift(res) == form_move(size, *a, va, *b, vb),
{
    if b.is_sr() {
        match a.to_address(va, IntSize::W) {
            Some(ea) => Ok(Instruction::MOVE_to_SR(ea)),
            None => Err(CodeError::InvalidOperands),
        }
    } else if b.is_usp() {
        match a.to_address_register() {
            Some(an) => Ok(Instruction::MOVE_to_USP(an)),
            None => Err(CodeError::InvalidOperands),
        }
    } else if a.is_usp() {
        match b.to_address_register() {
            Some(an) => Ok(Instruction::MOVE_from_USP(an)),
            None => Err(CodeError::InvalidOperands),
        }
    } else {
        match a.to_address(va, to_size_or_word(size)) {
            Some(src) => match b.to_address(vb, to_size_or_word(size)) {
                Some(dst) => Ok(Instruction::MOVE(to_size_or_word(size), src, dst)),
                None => Err(CodeError::InvalidOperands),
            },
            None => Err(CodeError::InvalidOperands),
        }
    }
}

fn build_on_address_register(
    mnemonic: Mnemonic,
    size: Option<IntSize>,
    a: &Operand,
    va: i32,
    b: &Operand,
    vb: i32,
) -> (res: Result<Instruction, CodeError>)
    requires
        mnemonic is ADDA || mnemonic is SUBA,
    ensures
        lift(res) == form2(mnemonic, size, *a, va, *b, vb),
{
    match a.to_address(va, to_size_or_word(size)) {
        Some(ea) => match b.to_address_register() {
            Some(an) => match mnemonic {
                Mnemonic::ADDA => Ok(Instruction::ADDA(to_size_or_word(size), ea, an)),
                _ => Ok(Instruction::SUBA(to_size_or_word(size), ea, an)),
            },
            None => Err(CodeError::InvalidOperands),
        },
        None => Err(CodeError::InvalidOperands),
    }
}

fn build2(mnemonic: Mnemonic, size: Option<IntSize>, a: &Operand, va: i32, b: &Operand, vb: i32)
    -> (res: Result<Instruction, CodeError>)
    ensures
        lift(res) == form2(mnemonic, size, *a, va, *b, vb),
{
    match mnemonic {
        Mnemonic::MOVE => build_move(size, a, va, b, vb),
        Mnemonic::MOVEA => match b.to_address_register() {
            Some(an) => build_move_address(size, a.to_address(va, to_size_or_word(size)), an),
            None => Err(CodeError::InvalidOperands),
        },
        Mnemonic::LEA => match a.to_address(va, IntSize::L) {
            Some(ea) => match b.to_address_register() {
                Some(an) => match LeaFirstArg::from_src(ea) {
                    Some(first) => Ok(Instruction::LEA(first, an)),
                    None => Err(CodeError::InvalidOperands),
                },
                None => Err(CodeError::InvalidOperands),
            },
            None => Err(CodeError::InvalidOperands),
        },
        Mnemonic::LINK => match a.to_address_register() {
            Some(an) => if b.is_immediate() {
                Ok(Instruction::LINK(an, #[verifier::truncate] (vb as u16)))
            } else {
                Err(CodeError::InvalidOperands)
            },
            None => Err(CodeError::InvalidOperands),
        },
        Mnemonic::CMP => match a.to_address(va, to_size_or_word(size)) {
            Some(ea) => match b.to_data_register() {
                Some(dn) => Ok(Instruction::CMP(to_size_or_word(size), ea, dn)),
                None => Err(CodeError::InvalidOperands),
            },
            None => Err(CodeError::InvalidOperands),
        },
        Mnemonic::CMPI => if a.is_immediate() {
            match b.to_address(vb, to_size_or_word(size)) {
                Some(ea) => Ok(
                    Instruction::CMPI(ImmediateData { size: to_size_or_word(size), value: va }, ea),
                ),
                None => Err(CodeError::InvalidOperands),
            }
        } else {
            Err(CodeError::InvalidOperands)
        },
        Mnemonic::ADDA => build_on_address_register(mnemonic, size, a, va, b, vb),
        Mnemonic::SUBA => build_on_address_register(mnemonic, size, a, va, b, vb),
        Mnemonic::ANDI => if a.is_immediate() && b.is_sr() {
            Ok(Instruction::ANDI_to_SR(#[verifier::truncate] (va as u16)))
        } else {
            Err(CodeError::InvalidOperands)
        },
        _ => Err(CodeError::InvalidOperands),
    }
}

/// Whether the operation is a branch.
pub fn branches(mnemonic: Mnemonic) -> (res: bool)
    ensures
        res == is_branch(mnemonic),
{
    match mnemonic {
        Mnemonic::Bcc(_) => true,
        Mnemonic::BSR => true,
        _ => false,
    }
}

/// Evaluates the operands of `op` and gives the instruction that it stands
/// for at `pc`. In a dry run the operand of a branch is left unread and its
/// displacement is zero.
pub fn resolve_operation<M: SymbolMap>(
    op: &Operation,
    pc: u32,
    symbols: &M,
    current_file: usize,
    dry_run: bool,
) -> (res: Result<Instruction, CodeError>)
    ensures
        lift(res) == resolve(*op, pc, symbols.lookup(), current_file, dry_run),
{
    let values = if dry_run && branches(op.mnemonic) {
        Ok(zeros(op.operands.len()))
    } else {
        evaluate_operands(&op.operands, symbols, current_file)
    };
    match values {
        Err(f) => Err(f),
        Ok(v) => {
            if op.operands.len() == 0 {
                build0(op.mnemonic)
            } else if op.operands.len() == 1 {
                proof {
                    lemma_values_len(op.operands@, symbols.lookup(), current_file);
                }
                build1(op.mnemonic, op.size, &op.operands[0], v[0], pc, dry_run)
            } else if op.operands.len() == 2 {
                proof {
                    lemma_values_len(op.operands@, symbols.lookup(), current_file);
                }
                build2(op.mnemonic, op.size, &op.operands[0], v[0], &op.operands[1], v[1])
            } else {
                Err(CodeError::InvalidOperands)
            }
        },
    }
}

/// There is one value for each operand.
pub proof fn lemma_values_len(operands: Seq<Operand>, look: Lookup, file: usize)
    ensures
        operand_values(operands, look, file) matches Ok(v) ==> v.len() == operands.len(),
    decreases operands.len(),
{
    if operands.len() > 0 {
        lemma_values_len(operands.drop_last(), look, file);
    }
}

/// Evaluates the operands of `op` and encodes the instruction that it
/// stands for at `pc`.
pub fn code_for_instr<M: SymbolMap>(
    op: &Operation,
    pc: u32,
    symbols: &M,
    current_file: usize,
    dry_run: bool,
) -> (res: Result<Vec<u8>, CodeError>)
    ensures
        lift_vec(res) == instr_code(*op, pc, symbols.lookup(), current_file, dry_run),
{
    match resolve_operation(op, pc, symbols, current_file, dry_run) {
        Ok(instruction) => Ok(instruction.encode()),
        Err(f) => Err(f),
    }
}

/// The bytes of a `DC` item of the given size whose expression has the
/// value `value`: its low bytes, most significant first.
pub open spec fn value_bytes(size: IntSize, value: i32) -> Seq<u8> {
    match size {
        IntSize::B => seq![value as u8],
        IntSize::W => be16(value as u16),
        IntSize::L => be32(value as u32),
    }
}

/// Whether `value`, read as an unsigned 32-bit number, is too large for
/// `size`.
pub open spec fn exceeds(size: IntSize, value: i32) -> bool {
    match size {
        IntSize::B => value as u32 > 0xff,
        IntSize::W => value as u32 > 0xffff,
        IntSize::L => false,
    }
}

/// The bytes of `DC` items, and where the items are written whose value
/// was cut to fit.
pub struct Data {
    pub bytes: Seq<u8>,
    pub warnings: Seq<Span>,
}

/// The bytes of one `DC` item: a string gives one byte for each of its
/// characters, an expression its value at the size of the directive.
pub open spec fn item_data(item: DataItem, size: IntSize, look: Lookup, file: usize) -> Result<
    Data,
    Failure,
> {
    match item {
        DataItem::Text(text) => Ok(Data { bytes: text@, warnings: Seq::empty() }),
        DataItem::Value(e, span) => match eval(e, look, file).outcome() {
            Ok(v) => Ok(
                Data {
                    bytes: value_bytes(size, v),
                    warnings: if exceeds(size, v) {
                        seq![span]
                    } else {
                        Seq::empty()
                    },
                },
            ),
            Err(f) => Err(f),
        },
    }
}

impl Failure {
    /// This failure together with a later one: undefined symbols add up,
    /// and a division by zero comes before them.
    pub open spec fn followed_by(self, later: Failure) -> Failure {
        match (self, later) {
            (Failure::Undefined(a), Failure::Undefined(b)) => Failure::Undefined(a + b),
            (Failure::Undefined(_), Failure::DivisionByZero) => Failure::DivisionByZero,
            (f, _) => f,
        }
    }
}

/// The bytes of the items of a `DC` directive, one after the other, or the
/// errors of all of them.
pub open spec fn data_code(items: Seq<DataItem>, size: IntSize, look: Lookup, file: usize)
    -> Result<Data, Failure>
    decreases items.len(),
{
    if items.len() == 0 {
        Ok(Data { bytes: Seq::empty(), warnings: Seq::empty() })
    } else {
        match (
            data_code(items.drop_last(), size, look, file),
            item_data(items.last(), size, look, file),
        ) {
            (Ok(a), Ok(b)) => Ok(
                Data { bytes: a.bytes + b.bytes, warnings: a.warnings + b.warnings },
            ),
            (Ok(_), Err(f)) => Err(f),
            (Err(f), Ok(_)) => Err(f),
            (Err(f), Err(g)) => Err(f.followed_by(g)),
        }
    }
}

/// What a statement comes to at a given value of the program counter.
pub struct Emission {
    /// The address that the statement moves the program counter to, where
    /// it moves it.
    pub start_addr: Option<u32>,
    /// The bytes that it places there.
    pub code: Seq<u8>,
    /// The value that it gives its label, where that is not the address.
    pub value: Option<u32>,
    /// Where the data items are written whose value was cut to fit.
    pub warnings: Seq<Span>,
}

impl Emission {
    /// The emission of a statement that places nothing.
    pub open spec fn nothing() -> Emission {
        Emission {
            start_addr: None,
            code: Seq::empty(),
            value: None,
            warnings: Seq::empty(),
        }
    }

    /// The address of the first byte, when the program counter was `pc`.
    pub open spec fn address(self, pc: u32) -> u32 {
        match self.start_addr {
            Some(a) => a,
            None => pc,
        }
    }
}

/// What `stmt` comes to at `pc`.
///
/// An instruction goes to the next even address and is encoded there. `ORG`
/// moves the program counter to the value of its expression, `EQU` gives the
/// label that value, and `DS` reserves that many values, as zero bytes: the
/// three are evaluated in the table beneath `look`, where a missing symbol
/// is an error. `DC` goes to the next multiple of its size.
pub open spec fn statement_code(
    stmt: Statement,
    pc: u32,
    look: Lookup,
    file: usize,
    dry_run: bool,
) -> Result<Emission, Failure> {
    match stmt.body {
        Body::Instruction(op) => if !IntSize::W.alignable(pc) {
            Err(Failure::AddressOverflow)
        } else {
            let start = IntSize::W.aligned_spec(pc);
            let at = match start {
                Some(a) => a,
                None => pc,
            };
            match instr_code(op, at, look, file, dry_run) {
                Ok(code) => Ok(Emission { start_addr: start, code, ..Emission::nothing() }),
                Err(f) => Err(f),
            }
        },
        Body::Directive(Directive::Org(e)) => match eval(e, look.failing(), file).outcome() {
            Ok(v) => Ok(Emission { start_addr: Some(v as u32), ..Emission::nothing() }),
            Err(f) => Err(f),
        },
        Body::Directive(Directive::Equ(e)) => match eval(e, look.failing(), file).outcome() {
            Ok(v) => Ok(Emission { value: Some(v as u32), ..Emission::nothing() }),
            Err(f) => Err(f),
        },
        Body::Directive(Directive::DefineConstant(size, items)) => if !size.alignable(pc) {
            Err(Failure::AddressOverflow)
        } else {
            match data_code(items@, size, look, file) {
                Ok(data) => Ok(
                    Emission {
                        start_addr: size.aligned_spec(pc),
                        code: data.bytes,
                        value: None,
                        warnings: data.warnings,
                    },
                ),
                Err(f) => Err(f),
            }
        },
        Body::Directive(Directive::DefineStorage(size, count)) => match eval(
            count,
            look.failing(),
            file,
        ).outcome() {
            Ok(n) => if n < 0 {
                Err(Failure::InvalidCount)
            } else if pc + n * size.bytes() > u32::MAX {
                Err(Failure::AddressOverflow)
            } else {
                Ok(
                    Emission {
                        code: Seq::new((n * size.bytes()) as nat, |i: int| 0u8),
                        ..Emission::nothing()
                    },
                )
            },
            Err(f) => Err(f),
        },
        Body::Directive(Directive::Include(_)) => Ok(Emission::nothing()),
        Body::Empty => Ok(Emission::nothing()),
    }
}

/// What a statement comes to: its label, and the code that it places.
#[derive(Debug)]
pub struct Encoded<'a> {
    /// The label of the statement, as it is written.
    pub label: Option<&'a Label>,
    /// The address that the statement moves the program counter to, where
    /// it moves it.
    pub start_addr: Option<u32>,
    /// The bytes that it places there.
    pub code: Vec<u8>,
    /// The value that it gives its label, where that is not the address.
    pub value: Option<u32>,
    /// Where the data items are written whose value was cut to fit.
    pub warnings: Vec<Span>,
}

impl<'a> View for Encoded<'a> {
    type V = Emission;

    open spec fn view(&self) -> Emission {
        Emission {
            start_addr: self.start_addr,
            code: self.code@,
            value: self.value,
            warnings: self.warnings@,
        }
    }
}

/// Whether `held` is the label `written`, or both are none.
pub open spec fn same_label(held: Option<&Label>, written: Option<Label>) -> bool {
    match (held, written) {
        (Some(l), Some(m)) => *l == m,
        (None, None) => true,
        _ => false,
    }
}

/// What a result of `code_for_statement` stands for.
pub open spec fn emission_of(res: Result<Encoded, CodeError>) -> Result<Emission, Failure> {
    match res {
        Ok(encoded) => Ok(encoded@),
        Err(e) => Err(e@),
    }
}

/// Appends the bytes of one `DC` item to `data`, and where it is written to
/// `warnings` if its value was cut to fit.
pub fn data_for_item<M: SymbolMap>(
    size: IntSize,
    item: &DataItem,
    symbols: &M,
    current_file: usize,
    data: &mut Vec<u8>,
    warnings: &mut Vec<Span>,
) -> (res: Result<(), CodeError>)
    ensures
        match res {
            Ok(()) => item_data(*item, size, symbols.lookup(), current_file) matches Ok(d)
                && final(data)@ == old(data)@ + d.bytes && final(warnings)@ == old(warnings)@
                + d.warnings,
            Err(e) => item_data(*item, size, symbols.lookup(), current_file) == Err::<
                Data,
                Failure,
            >(e@) && final(data)@ == old(data)@ && final(warnings)@ == old(warnings)@,
        },
{
    match item {
        DataItem::Text(text) => {
            push_all(data, text);
            assert(warnings@ =~= old(warnings)@ + Seq::<Span>::empty());
            Ok(())
        },
        DataItem::Value(e, span) => match parse_expression(e, symbols, current_file) {
            Err(e) => Err(code_error(e)),
            Ok(value) => {
                let unsigned: u32 = #[verifier::truncate] (value as u32);
                match size {
                    IntSize::B => {
                        if unsigned > 0xff {
                            warnings.push(*span);
                        }
                        data.push(#[verifier::truncate] (value as u8));
                    },
                    IntSize::W => {
                        if unsigned > 0xffff {
                            warnings.push(*span);
                        }
                        push_be16(data, #[verifier::truncate] (value as u16));
                    },
                    IntSize::L => {
                        push_be32(data, unsigned);
                    },
                }
                assert(data@ =~= old(data)@ + value_bytes(size, value));
                assert(warnings@ =~= old(warnings)@ + (if exceeds(size, value) {
                    seq![*span]
                } else {
                    Seq::empty()
                }));
                Ok(())
            },
        },
    }
}

/// The error of two items that both have one.
fn then_error(first: CodeError, later: CodeError) -> (res: CodeError)
    ensures
        res@ == first@.followed_by(later@),
{
    match (first, later) {
        (CodeError::UndefinedSymbols(mut a), CodeError::UndefinedSymbols(b)) => {
            append_errors(&mut a, &b);
            CodeError::UndefinedSymbols(a)
        },
        (CodeError::UndefinedSymbols(_), CodeError::DivisionByZero) => CodeError::DivisionByZero,
        (f, _) => f,
    }
}

/// The bytes of the items of a `DC` directive.
pub fn data_for_items<M: SymbolMap>(
    size: IntSize,
    items: &Vec<DataItem>,
    symbols: &M,
    current_file: usize,
) -> (res: Result<(Vec<u8>, Vec<Span>), CodeError>)
    ensures
        match res {
            Ok((bytes, warnings)) => data_code(items@, size, symbols.lookup(), current_file) == Ok::<
                Data,
                Failure,
            >(Data { bytes: bytes@, warnings: warnings@ }),
            Err(e) => data_code(items@, size, symbols.lookup(), current_file) == Err::<
                Data,
                Failure,
            >(e@),
        },
{
    let mut bytes: Vec<u8> = Vec::new();
    let mut warnings: Vec<Span> = Vec::new();
    let mut error: Option<CodeError> = None;
    let mut i: usize = 0;
    assert(items@.take(0) =~= Seq::<DataItem>::empty());
    while i < items.len()
        invariant
            i <= items.len(),
            match error {
                None => data_code(items@.take(i as int), size, symbols.lookup(), current_file)
                    == Ok::<Data, Failure>(Data { bytes: bytes@, warnings: warnings@ }),
                Some(e) => data_code(items@.take(i as int), size, symbols.lookup(), current_file)
                    == Err::<Data, Failure>(e@),
            },
        decreases items.len() - i,
    {
        assert(items@.take(i + 1).drop_last() =~= items@.take(i as int));
        let next = data_for_item(size, &items[i], symbols, current_file, &mut bytes, &mut warnings);
        error = match (error, next) {
            (None, Ok(())) => None,
            (None, Err(f)) => Some(f),
            (Some(f), Ok(())) => Some(f),
            (Some(f), Err(g)) => Some(then_error(f, g)),
        };
        i += 1;
    }
    assert(items@.take(i as int) =~= items@);
    match error {
        None => Ok((bytes, warnings)),
        Some(e) => Err(e),
    }
}

fn zero_bytes(n: usize) -> (res: Vec<u8>)
    ensures
        res@ == Seq::new(n as nat, |i: int| 0u8),
{
    let mut res: Vec<u8> = Vec::new();
    let mut i: usize = 0;
    while i < n
        invariant
            i <= n,
            res@ == Seq::new(i as nat, |j: int| 0u8),
        decreases n - i,
    {
        res.push(0);
        i += 1;
        assert(res@ =~= Seq::new(i as nat, |j: int| 0u8));
    }
    res
}

/// The number of bytes that `n` values of the given size take.
fn storage_len(size: IntSize, n: i32) -> (total: u64)
    requires
        n >= 0,
    ensures
        total == n * size.bytes(),
{
    match size {
        IntSize::B => n as u64,
        IntSize::W => 2 * (n as u64),
        IntSize::L => 4 * (n as u64),
    }
}

/// Evaluates `e` in the table beneath `symbols`, where a missing symbol is
/// an error.
fn evaluate_strictly<M: SymbolMap>(e: &Expression, symbols: &M, current_file: usize) -> (res: Result<
    i32,
    CodeError,
>)
    ensures
        lift(res) == eval(*e, symbols.lookup().failing(), current_file).outcome(),
{
    match parse_expression(e, &FailingMap(symbols), current_file) {
        Ok(v) => Ok(v),
        Err(e) => Err(code_error(e)),
    }
}

/// The code of `stmt` at `pc`, with the symbols that `symbols` gives.
pub fn code_for_statement<'a, M: SymbolMap>(
    stmt: &'a Statement,
    pc: u32,
    symbols: &M,
    current_file: usize,
    dry_run: bool,
) -> (res: Result<Encoded<'a>, CodeError>)
    ensures
        emission_of(res) == statement_code(*stmt, pc, symbols.lookup(), current_file, dry_run),
        res matches Ok(encoded) ==> same_label(encoded.label, stmt.label),
        res matches Ok(encoded) ==> stmt.body is Instruction ==> encoded@.address(pc) % 2 == 0,
{
    let label: Option<&'a Label> = match &stmt.label {
        Some(l) => Some(l),
        None => None,
    };
    match &stmt.body {
        Body::Instruction(op) => {
            if !IntSize::W.can_align(pc) {
                return Err(CodeError::AddressOverflow);
            }
            let start = IntSize::W.aligned(pc);
            let at: u32 = match start {
                Some(a) => a,
                None => pc,
            };
            match code_for_instr(op, at, symbols, current_file, dry_run) {
                Ok(code) => Ok(
                    Encoded { label, start_addr: start, code, value: None, warnings: Vec::new() },
                ),
                Err(f) => Err(f),
            }
        },
        Body::Directive(Directive::Org(e)) => match evaluate_strictly(e, symbols, current_file) {
            Ok(v) => Ok(
                Encoded {
                    label,
                    start_addr: Some(#[verifier::truncate] (v as u32)),
                    code: Vec::new(),
                    value: None,
                    warnings: Vec::new(),
                },
            ),
            Err(f) => Err(f),
        },
        Body::Directive(Directive::Equ(e)) => match evaluate_strictly(e, symbols, current_file) {
            Ok(v) => Ok(
                Encoded {
                    label,
                    start_addr: None,
                    code: Vec::new(),
                    value: Some(#[verifier::truncate] (v as u32)),
                    warnings: Vec::new(),
                },
            ),
            Err(f) => Err(f),
        },
        Body::Directive(Directive::DefineConstant(size, items)) => {
            if !size.can_align(pc) {
                return Err(CodeError::AddressOverflow);
            }
            match data_for_items(*size, items, symbols, current_file) {
                Ok((code, warnings)) => Ok(
                    Encoded { label, start_addr: size.aligned(pc), code, value: None, warnings },
                ),
                Err(f) => Err(f),
            }
        },
        Body::Directive(Directive::DefineStorage(size, count)) => match evaluate_strictly(
            count,
            symbols,
            current_file,
        ) {
            Ok(n) => {
                if n < 0 {
                    Err(CodeError::InvalidCount)
                } else {
                    let total: u64 = storage_len(*size, n);
                    if pc as u64 + total > u32::MAX as u64 {
                        Err(CodeError::AddressOverflow)
                    } else {
                        Ok(
                            Encoded {
                                label,
                                start_addr: None,
                                code: zero_bytes(total as usize),
                                value: None,
                                warnings: Vec::new(),
                            },
                        )
                    }
                }
            },
            Err(f) => Err(f),
        },
        Body::Directive(Directive::Include(_)) => Ok(
            Encoded { label, start_addr: None, code: Vec::new(), value: None, warnings: Vec::new() },
        ),
        Body::Empty => Ok(
            Encoded { label, start_addr: None, code: Vec::new(), value: None, warnings: Vec::new() },
        ),
    }
}

} // verus!
