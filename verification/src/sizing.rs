//! The size of a statement's code, the address that it goes to and the
//! value that it gives its label are the same in both passes: they depend
//! on how the statement is written and on the symbols that were defined
//! before it, never on the values that the second pass brings.

use vstd::prelude::*;
use crate::addressing::LeaFirstArg;
use crate::ast::{Body, DataItem, Directive, Mnemonic, Operand, Operation, Statement};
use crate::codegen::{
    data_code,
    form,
    form1,
    form2,
    is_branch,
    operand_values,
    size_or_word,
    statement_code,
};
use crate::expression::lemma_value_is_kept;
use crate::size::IntSize;
use crate::symbols::Lookup;

verus! {

/// Which effective address an operand names depends on its value only in
/// the value that the address holds: whether it names one, whether that one
/// names a place in memory, and the number of its extension bytes are the
/// same for any two values.
pub proof fn lemma_address_shape(a: Operand, size: IntSize, v1: i32, v2: i32)
    ensures
        a.address(v1, size) is Some <==> a.address(v2, size) is Some,
        a.address(v1, size) matches Some(e1) ==> a.address(v2, size) matches Some(e2) ==> {
            &&& e1.extension_len() == e2.extension_len()
            &&& LeaFirstArg::of_src(e1) is Some <==> LeaFirstArg::of_src(e2) is Some
            &&& LeaFirstArg::of_src(e1) matches Some(d1) ==> LeaFirstArg::of_src(
                e2,
            ) matches Some(d2) ==> d1.as_src().extension_len() == d2.as_src().extension_len()
        },
{
}

/// Whether an operation with one operand has a form, and the number of
/// bytes of that form, do not depend on the value of the operand, on the
/// address or on the run being dry.
pub proof fn lemma_form1_len(
    mnemonic: Mnemonic,
    size: Option<IntSize>,
    a: Operand,
    v1: i32,
    pc1: u32,
    dry1: bool,
    v2: i32,
    pc2: u32,
    dry2: bool,
)
    ensures
        form1(mnemonic, size, a, v1, pc1, dry1) is Ok <==> form1(
            mnemonic,
            size,
            a,
            v2,
            pc2,
            dry2,
        ) is Ok,
        form1(mnemonic, size, a, v1, pc1, dry1) matches Ok(i1) ==> form1(
            mnemonic,
            size,
            a,
            v2,
            pc2,
            dry2,
        ) matches Ok(i2) ==> i1.len() == i2.len(),
{
    lemma_address_shape(a, IntSize::L, v1, v2);
    lemma_address_shape(a, size_or_word(size), v1, v2);
}

/// Whether an operation with two operands has a form, and the number of
/// bytes of that form, do not depend on the values of the operands.
pub proof fn lemma_form2_len(
    mnemonic: Mnemonic,
    size: Option<IntSize>,
    a: Operand,
    b: Operand,
    va1: i32,
    vb1: i32,
    va2: i32,
    vb2: i32,
)
    ensures
        form2(mnemonic, size, a, va1, b, vb1) is Ok <==> form2(mnemonic, size, a, va2, b, vb2) is Ok,
        form2(mnemonic, size, a, va1, b, vb1) matches Ok(i1) ==> form2(
            mnemonic,
            size,
            a,
            va2,
            b,
            vb2,
        ) matches Ok(i2) ==> i1.len() == i2.len(),
{
    lemma_address_shape(a, IntSize::L, va1, va2);
    lemma_address_shape(a, IntSize::W, va1, va2);
    lemma_address_shape(a, size_or_word(size), va1, va2);
    lemma_address_shape(b, size_or_word(size), vb1, vb2);
}

/// Whether an operation has a form, and the number of bytes of that form,
/// do not depend on the values of the operands, on the address or on the
/// run being dry.
pub proof fn lemma_form_len(
    op: Operation,
    v1: Seq<i32>,
    pc1: u32,
    dry1: bool,
    v2: Seq<i32>,
    pc2: u32,
    dry2: bool,
)
    ensures
        form(op, v1, pc1, dry1) is Ok <==> form(op, v2, pc2, dry2) is Ok,
        form(op, v1, pc1, dry1) matches Ok(a) ==> form(op, v2, pc2, dry2) matches Ok(b)
            ==> a.bytes().len() == b.bytes().len(),
{
    if op.operands@.len() == 1 {
        lemma_form1_len(op.mnemonic, op.size, op.operands@[0], v1[0], pc1, dry1, v2[0], pc2, dry2);
    } else if op.operands@.len() == 2 {
        lemma_form2_len(
            op.mnemonic,
            op.size,
            op.operands@[0],
            op.operands@[1],
            v1[0],
            v1[1],
            v2[0],
            v2[1],
        );
    }
    if form(op, v1, pc1, dry1) is Ok && form(op, v2, pc2, dry2) is Ok {
        form(op, v1, pc1, dry1)->Ok_0.lemma_len();
        form(op, v2, pc2, dry2)->Ok_0.lemma_len();
    }
}

/// The bytes of the items of a `DC` directive are as many under any two
/// lookups.
pub proof fn lemma_data_len(items: Seq<DataItem>, size: IntSize, look1: Lookup, look2: Lookup, file: usize)
    ensures
        data_code(items, size, look1, file) matches Ok(a) ==> data_code(
            items,
            size,
            look2,
            file,
        ) matches Ok(b) ==> a.bytes.len() == b.bytes.len(),
    decreases items.len(),
{
    if items.len() > 0 {
        lemma_data_len(items.drop_last(), size, look1, look2, file);
    }
}

/// Stable sizing: where a statement has code at `pc` under two lookups, the
/// second of which knows every symbol that the first knows, the code has
/// the same length, goes to the same address and gives the label the same
/// value.
pub proof fn lemma_stable_sizing(
    stmt: Statement,
    pc: u32,
    look1: Lookup,
    dry1: bool,
    look2: Lookup,
    dry2: bool,
    file: usize,
)
    requires
        look1.table.submap_of(look2.table),
        statement_code(stmt, pc, look1, file, dry1) is Ok,
        statement_code(stmt, pc, look2, file, dry2) is Ok,
    ensures
        statement_code(stmt, pc, look1, file, dry1)->Ok_0.code.len() == statement_code(
            stmt,
            pc,
            look2,
            file,
            dry2,
        )->Ok_0.code.len(),
        statement_code(stmt, pc, look1, file, dry1)->Ok_0.start_addr == statement_code(
            stmt,
            pc,
            look2,
            file,
            dry2,
        )->Ok_0.start_addr,
        statement_code(stmt, pc, look1, file, dry1)->Ok_0.value == statement_code(
            stmt,
            pc,
            look2,
            file,
            dry2,
        )->Ok_0.value,
{
    match stmt.body {
        Body::Instruction(op) => {
            let at = match IntSize::W.aligned_spec(pc) {
                Some(a) => a,
                None => pc,
            };
            let v1 = if dry1 && is_branch(op.mnemonic) {
                Seq::new(op.operands@.len(), |i: int| 0i32)
            } else {
                operand_values(op.operands@, look1, file)->Ok_0
            };
            let v2 = if dry2 && is_branch(op.mnemonic) {
                Seq::new(op.operands@.len(), |i: int| 0i32)
            } else {
                operand_values(op.operands@, look2, file)->Ok_0
            };
            lemma_form_len(op, v1, at, dry1, v2, at, dry2);
        },
        Body::Directive(Directive::Org(e)) => {
            lemma_value_is_kept(e, look1.table, look2.table, file);
        },
        Body::Directive(Directive::Equ(e)) => {
            lemma_value_is_kept(e, look1.table, look2.table, file);
        },
        Body::Directive(Directive::DefineConstant(size, items)) => {
            lemma_data_len(items@, size, look1, look2, file);
        },
        Body::Directive(Directive::DefineStorage(size, count)) => {
            lemma_value_is_kept(count, look1.table, look2.table, file);
        },
        _ => {},
    }
}

/// An instruction is placed at an even address.
pub proof fn lemma_instruction_is_aligned(
    stmt: Statement,
    pc: u32,
    look: Lookup,
    file: usize,
    dry_run: bool,
)
    requires
        stmt.body is Instruction,
        statement_code(stmt, pc, look, file, dry_run) is Ok,
    ensures
        statement_code(stmt, pc, look, file, dry_run)->Ok_0.address(pc) % 2 == 0,
{
    if IntSize::W.alignable(pc) {
        IntSize::W.lemma_aligned(pc);
    }
}

} // verus!
