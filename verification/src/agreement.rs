//! The two passes agree: the second pass places every statement at the
//! address at which the first pass saw it, so that the value of a label is
//! the address of the code of its statement.

use vstd::prelude::*;
use vstd::utf8::encode_utf8;
use crate::ast::{Body, Directive, Statement};
use crate::codegen::statement_code;
use crate::error::Failure;
use crate::passes::{define, emit, first_pass, run, second_pass, SourceUnit, State};
use crate::sizing::lemma_stable_sizing;
use crate::symbols::Lookup;

verus! {

impl Statement {
    /// Whether the statement gives its label a value of its own.
    pub open spec fn is_equ(self) -> bool {
        self.body matches Body::Directive(Directive::Equ(_))
    }

    /// Whether the statement has a label that names the address of its
    /// code.
    pub open spec fn names_address(self) -> bool {
        self.label is Some && !self.is_include() && !self.is_equ()
    }
}

/// The first pass over a statement defines nothing but its label, and
/// places nothing.
pub proof fn lemma_define_extends(stmt: Statement, pc: u32, st: State, file: usize)
    ensures
        st.symbols.submap_of(define(stmt, pc, st, file).0.symbols),
        define(stmt, pc, st, file).0.code == st.code,
        define(stmt, pc, st, file).0.files == st.files,
        define(stmt, pc, st, file).0.listing == st.listing,
        st.diagnostics.is_prefix_of(define(stmt, pc, st, file).0.diagnostics),
{
    reveal(define);
}

/// The second pass over a statement defines nothing, and places at most
/// one fragment, behind those that were placed before.
pub proof fn lemma_emit_extends(
    stmt: Statement,
    pc: u32,
    st: State,
    file: usize,
    bytes: Seq<u8>,
    create_listing: bool,
)
    ensures
        emit(stmt, pc, st, file, bytes, create_listing).0.symbols == st.symbols,
        emit(stmt, pc, st, file, bytes, create_listing).0.files == st.files,
        st.code.is_prefix_of(emit(stmt, pc, st, file, bytes, create_listing).0.code),
        emit(stmt, pc, st, file, bytes, create_listing).1 is Ok ==> emit(
            stmt,
            pc,
            st,
            file,
            bytes,
            create_listing,
        ).0.code.len() == st.code.len() + 1,
        st.diagnostics.is_prefix_of(emit(stmt, pc, st, file, bytes, create_listing).0.diagnostics),
{
    reveal(emit);
}

/// One statement in both passes: where the first pass defines the label
/// of a statement at `pc` and the second pass, which knows every symbol
/// that the first knew, places the statement at `pc`, both move the
/// program counter to the same address, and the label of a statement that
/// names the address of its code has the address of the fragment that was
/// placed.
pub proof fn lemma_statement_agrees(
    stmt: Statement,
    pc: u32,
    st1: State,
    st2: State,
    file: usize,
    bytes: Seq<u8>,
    create_listing: bool,
)
    requires
        st1.symbols.submap_of(st2.symbols),
        define(stmt, pc, st1, file).1 is Ok,
        emit(stmt, pc, st2, file, bytes, create_listing).1 is Ok,
    ensures
        define(stmt, pc, st1, file).1 == emit(stmt, pc, st2, file, bytes, create_listing).1,
        emit(stmt, pc, st2, file, bytes, create_listing).0.code.len() == st2.code.len() + 1,
        stmt.names_address() ==> define(stmt, pc, st1, file).0.symbols.contains_key(
            stmt.label->0.name@,
        ) && define(stmt, pc, st1, file).0.symbols[stmt.label->0.name@] == emit(
            stmt,
            pc,
            st2,
            file,
            bytes,
            create_listing,
        ).0.code.last().0,
{
    reveal(define);
    reveal(emit);
    let look1 = Lookup { table: st1.symbols, permissive: true };
    let strict = Lookup { table: st2.symbols, permissive: false };
    let relaxed = Lookup { table: st2.symbols, permissive: true };
    if statement_code(stmt, pc, strict, file, false) is Ok {
        lemma_stable_sizing(stmt, pc, look1, true, strict, false, file);
    } else {
        lemma_stable_sizing(stmt, pc, look1, true, relaxed, true, file);
    }
}

/// The number of statements before the `j`-th that are no `INCLUDE`: each
/// of them places one fragment.
pub open spec fn placed_before(statements: Seq<Statement>, j: int) -> nat
    decreases j,
{
    if j <= 0 || j > statements.len() {
        0
    } else {
        placed_before(statements, j - 1) + if statements[j - 1].is_include() {
            0nat
        } else {
            1nat
        }
    }
}

/// The second pass defines nothing, and places one fragment for each
/// statement that is no `INCLUDE`, behind those that were placed before.
pub proof fn lemma_second_pass_extends(
    unit: SourceUnit,
    i: int,
    k: int,
    pc: u32,
    ends: Seq<u32>,
    st: State,
    file: usize,
    create_listing: bool,
)
    requires
        0 <= i <= unit.statements@.len(),
    ensures
        second_pass(unit, i, k, pc, ends, st, file, create_listing).0.symbols == st.symbols,
        second_pass(unit, i, k, pc, ends, st, file, create_listing).0.files == st.files,
        st.code.is_prefix_of(second_pass(unit, i, k, pc, ends, st, file, create_listing).0.code),
        second_pass(unit, i, k, pc, ends, st, file, create_listing).1 is Ok ==> second_pass(
            unit,
            i,
            k,
            pc,
            ends,
            st,
            file,
            create_listing,
        ).0.code.len() == st.code.len() + placed_before(
            unit.statements@,
            unit.statements@.len() as int,
        ) - placed_before(unit.statements@, i),
    decreases unit.statements@.len() - i,
{
    if i < unit.statements@.len() {
        let stmt = unit.statements@[i];
        if stmt.is_include() {
            let next = if 0 <= k < ends.len() {
                ends[k]
            } else {
                pc
            };
            lemma_second_pass_extends(unit, i + 1, k + 1, next, ends, st, file, create_listing);
            lemma_placed_step(unit.statements@, i);
        } else {
            let bytes = encode_utf8(unit.text@);
            lemma_emit_extends(stmt, pc, st, file, bytes, create_listing);
            let (after, res) = emit(stmt, pc, st, file, bytes, create_listing);
            if res is Ok {
                lemma_second_pass_extends(
                    unit,
                    i + 1,
                    k,
                    res->Ok_0,
                    ends,
                    after,
                    file,
                    create_listing,
                );
                lemma_placed_step(unit.statements@, i);
            }
        }
    }
}

/// From one statement to the next, the number of statements that place a
/// fragment grows by one unless the statement is an `INCLUDE`.
pub proof fn lemma_placed_step(statements: Seq<Statement>, i: int)
    requires
        0 <= i < statements.len(),
    ensures
        placed_before(statements, i + 1) == placed_before(statements, i) + if statements[i].is_include() {
            0nat
        } else {
            1nat
        },
{
}

/// A file that is assembled keeps what was gathered before it: the
/// symbols keep their values, and the fragments and the files their
/// places.
pub proof fn lemma_run_extends(unit: SourceUnit, entrypoint: u32, st: State, create_listing: bool)
    ensures
        st.symbols.submap_of(run(unit, entrypoint, st, create_listing).0.symbols),
        st.code.is_prefix_of(run(unit, entrypoint, st, create_listing).0.code),
        st.files.is_prefix_of(run(unit, entrypoint, st, create_listing).0.files),
    decreases unit, unit.statements@.len() + 1,
{
    let file = st.files.len() as usize;
    let registered = State { files: st.files.push((unit.path@, unit.text@)), ..st };
    lemma_first_pass_extends(unit, 0, 0, entrypoint, Seq::empty(), registered, file, create_listing);
    let (mid, res) = first_pass(
        unit,
        0,
        0,
        entrypoint,
        Seq::empty(),
        registered,
        file,
        create_listing,
    );
    if res is Ok {
        lemma_second_pass_extends(
            unit,
            0,
            0,
            entrypoint,
            res->Ok_0,
            mid,
            file,
            create_listing,
        );
    }
}

/// The first pass keeps what was gathered before it, and keeps the
/// addresses at which the files ended that were included before.
pub proof fn lemma_first_pass_extends(
    unit: SourceUnit,
    i: int,
    k: int,
    pc: u32,
    ends: Seq<u32>,
    st: State,
    file: usize,
    create_listing: bool,
)
    requires
        0 <= i <= unit.statements@.len(),
    ensures
        st.symbols.submap_of(
            first_pass(unit, i, k, pc, ends, st, file, create_listing).0.symbols,
        ),
        st.code.is_prefix_of(first_pass(unit, i, k, pc, ends, st, file, create_listing).0.code),
        st.files.is_prefix_of(first_pass(unit, i, k, pc, ends, st, file, create_listing).0.files),
        first_pass(unit, i, k, pc, ends, st, file, create_listing).1 matches Ok(all)
            ==> ends.is_prefix_of(all),
    decreases unit, unit.statements@.len() - i,
{
    if i < unit.statements@.len() {
        let stmt = unit.statements@[i];
        if stmt.is_include() {
            if 0 <= k < unit.includes@.len() {
                lemma_run_extends(unit.includes@[k], pc, st, create_listing);
                let (after, res) = run(unit.includes@[k], pc, st, create_listing);
                if res is Ok {
                    let end = res->Ok_0;
                    lemma_first_pass_extends(
                        unit,
                        i + 1,
                        k + 1,
                        end,
                        ends.push(end),
                        after,
                        file,
                        create_listing,
                    );
                    let last = first_pass(
                        unit,
                        i + 1,
                        k + 1,
                        end,
                        ends.push(end),
                        after,
                        file,
                        create_listing,
                    );
                    lemma_submap_trans(st.symbols, after.symbols, last.0.symbols);
                    lemma_prefix_trans(st.code, after.code, last.0.code);
                    lemma_prefix_trans(st.files, after.files, last.0.files);
                    if last.1 is Ok {
                        lemma_prefix_trans(ends, ends.push(end), last.1->Ok_0);
                    }
                }
            }
        } else {
            lemma_define_extends(stmt, pc, st, file);
            let (after, res) = define(stmt, pc, st, file);
            if res is Ok {
                lemma_first_pass_extends(
                    unit,
                    i + 1,
                    k,
                    res->Ok_0,
                    ends,
                    after,
                    file,
                    create_listing,
                );
                let last = first_pass(unit, i + 1, k, res->Ok_0, ends, after, file, create_listing);
                lemma_submap_trans(st.symbols, after.symbols, last.0.symbols);
            }
        }
    }
}

/// A table that is part of a part of a table is part of that table.
pub proof fn lemma_submap_trans<K, V>(a: Map<K, V>, b: Map<K, V>, c: Map<K, V>)
    requires
        a.submap_of(b),
        b.submap_of(c),
    ensures
        a.submap_of(c),
{
    assert forall|k: K| #[trigger] a.dom().contains(k) implies c.dom().contains(k) && a[k] == c[k] by {
        assert(b.dom().contains(k));
    }
}

/// A table holds what a part of it holds.
pub proof fn lemma_submap_value<K, V>(a: Map<K, V>, b: Map<K, V>, k: K)
    requires
        a.submap_of(b),
        a.dom().contains(k),
    ensures
        b.dom().contains(k),
        a[k] == b[k],
{
    assert(b.dom().contains(k));
}

/// A start of a start of a list is a start of that list.
pub proof fn lemma_prefix_trans<T>(a: Seq<T>, b: Seq<T>, c: Seq<T>)
    requires
        a.is_prefix_of(b),
        b.is_prefix_of(c),
    ensures
        a.is_prefix_of(c),
{
    assert forall|i: int| 0 <= i < a.len() implies a[i] == c[i] by {
        assert(a[i] == b[i]);
    }
}

/// The passes agree from the `i`-th statement on: where the first pass
/// ends well from there, and the second pass, which knows every symbol
/// that the first pass has defined by its end, ends well from there at the
/// same address, the label of the `j`-th statement has the address of the
/// fragment that the second pass places for it.
pub proof fn lemma_passes_agree(
    unit: SourceUnit,
    i: int,
    k: int,
    pc: u32,
    ends: Seq<u32>,
    st1: State,
    st2: State,
    file: usize,
    create_listing: bool,
    j: int,
)
    requires
        0 <= i <= j < unit.statements@.len(),
        k == ends.len(),
        first_pass(unit, i, k, pc, ends, st1, file, create_listing).1 is Ok,
        first_pass(unit, i, k, pc, ends, st1, file, create_listing).0.symbols.submap_of(
            st2.symbols,
        ),
        second_pass(
            unit,
            i,
            k,
            pc,
            first_pass(unit, i, k, pc, ends, st1, file, create_listing).1->Ok_0,
            st2,
            file,
            create_listing,
        ).1 is Ok,
        unit.statements@[j].names_address(),
    ensures
        ({
            let first = first_pass(unit, i, k, pc, ends, st1, file, create_listing);
            let second = second_pass(unit, i, k, pc, first.1->Ok_0, st2, file, create_listing);
            let name = unit.statements@[j].label->0.name@;
            let index = st2.code.len() + placed_before(unit.statements@, j) - placed_before(
                unit.statements@,
                i,
            );
            &&& first.0.symbols.contains_key(name)
            &&& 0 <= index < second.0.code.len()
            &&& first.0.symbols[name] == second.0.code[index].0
        }),
    decreases unit.statements@.len() - i,
{
    let stmt = unit.statements@[i];
    let first = first_pass(unit, i, k, pc, ends, st1, file, create_listing);
    let all = first.1->Ok_0;
    lemma_placed_step(unit.statements@, i);
    lemma_placed_mono(unit.statements@, i + 1, j);
    if stmt.is_include() {
        let (after, res) = run(unit.includes@[k], pc, st1, create_listing);
        let end = res->Ok_0;
        lemma_first_pass_extends(
            unit,
            i + 1,
            k + 1,
            end,
            ends.push(end),
            after,
            file,
            create_listing,
        );
        assert(all[k] == ends.push(end)[k]);
        lemma_passes_agree(
            unit,
            i + 1,
            k + 1,
            end,
            ends.push(end),
            after,
            st2,
            file,
            create_listing,
            j,
        );
    } else {
        let bytes = encode_utf8(unit.text@);
        let (defined, next1) = define(stmt, pc, st1, file);
        let (placed, next2) = emit(stmt, pc, st2, file, bytes, create_listing);
        let next = next1->Ok_0;
        lemma_define_extends(stmt, pc, st1, file);
        lemma_first_pass_extends(unit, i + 1, k, next, ends, defined, file, create_listing);
        lemma_submap_trans(st1.symbols, defined.symbols, first.0.symbols);
        lemma_submap_trans(st1.symbols, first.0.symbols, st2.symbols);
        lemma_statement_agrees(stmt, pc, st1, st2, file, bytes, create_listing);
        lemma_emit_extends(stmt, pc, st2, file, bytes, create_listing);
        lemma_second_pass_extends(unit, i + 1, k, next, all, placed, file, create_listing);
        assert(first == first_pass(unit, i + 1, k, next, ends, defined, file, create_listing));
        if j == i {
            let name = stmt.label->0.name@;
            lemma_submap_value(defined.symbols, first.0.symbols, name);
            assert(placed.code.last() == placed.code[st2.code.len() as int]);
        } else {
            lemma_passes_agree(
                unit,
                i + 1,
                k,
                next,
                ends,
                defined,
                placed,
                file,
                create_listing,
                j,
            );
        }
    }
}

/// The number of statements that place a fragment does not fall.
pub proof fn lemma_placed_mono(statements: Seq<Statement>, i: int, j: int)
    requires
        0 <= i,
        i <= j + 1,
        j < statements.len(),
    ensures
        i <= j ==> placed_before(statements, i) <= placed_before(statements, j),
    decreases j - i,
{
    if i < j {
        lemma_placed_mono(statements, i, j - 1);
    }
}

/// The state in which the second pass over `unit` begins: the file is
/// registered and the first pass has defined its labels.
pub open spec fn between_passes(
    unit: SourceUnit,
    entrypoint: u32,
    st: State,
    create_listing: bool,
) -> State {
    first_pass(
        unit,
        0,
        0,
        entrypoint,
        Seq::empty(),
        State { files: st.files.push((unit.path@, unit.text@)), ..st },
        st.files.len() as usize,
        create_listing,
    ).0
}

/// A label is the address of its statement: where a file is assembled
/// without a failure, the value that the symbol table holds for the label
/// of a statement is the address of the fragment that the second pass has
/// placed for that statement, unless the statement is an `EQU`, which
/// gives its label a value of its own. The fragment of the `j`-th
/// statement lies as many fragments behind those that were there when the
/// second pass began as statements before it place one.
pub proof fn lemma_label_is_address(
    unit: SourceUnit,
    entrypoint: u32,
    st: State,
    create_listing: bool,
    j: int,
)
    requires
        run(unit, entrypoint, st, create_listing).1 is Ok,
        0 <= j < unit.statements@.len(),
        unit.statements@[j].names_address(),
    ensures
        ({
            let after = run(unit, entrypoint, st, create_listing).0;
            let name = unit.statements@[j].label->0.name@;
            let index = between_passes(unit, entrypoint, st, create_listing).code.len()
                + placed_before(unit.statements@, j);
            &&& after.symbols.contains_key(name)
            &&& index < after.code.len()
            &&& after.symbols[name] == after.code[index as int].0
        }),
{
    let file = st.files.len() as usize;
    let registered = State { files: st.files.push((unit.path@, unit.text@)), ..st };
    let first = first_pass(
        unit,
        0,
        0,
        entrypoint,
        Seq::empty(),
        registered,
        file,
        create_listing,
    );
    lemma_second_pass_extends(
        unit,
        0,
        0,
        entrypoint,
        first.1->Ok_0,
        first.0,
        file,
        create_listing,
    );
    lemma_passes_agree(
        unit,
        0,
        0,
        entrypoint,
        Seq::empty(),
        registered,
        first.0,
        file,
        create_listing,
        j,
    );
}

} // verus!
