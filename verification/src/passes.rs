//! The two passes over the statements of a file and of the files that it
//! includes: the first gives every label its address, the second places
//! the code.

use vstd::prelude::*;
use vstd::string::*;
use vstd::utf8::encode_utf8;
use crate::arena::FileArena;
use crate::ast::{Span, Statement};
use crate::codegen::{code_for_statement, statement_code, Emission, Encoded};
use crate::error::{lift, CodeError, Diagnostic, ErrorKind, Failure, Problem};
use crate::listing::{statement_lines, with_fragment, CodeRef, Listing};
use crate::srec::{fragment_views, Fragment};
use crate::symbols::{Lookup, NonFailingMap, SymbolTable};

verus! {

/// A source file that has been read and parsed, with the files that it
/// includes: the statement that includes the `k`-th of them is the `k`-th
/// `INCLUDE` of the file.
#[derive(Debug)]
pub struct SourceUnit {
    pub path: String,
    pub text: String,
    pub statements: Vec<Statement>,
    pub includes: Vec<SourceUnit>,
}

/// What an assembly has gathered.
pub struct GlobalData {
    /// The files, in the order in which their assembly began.
    pub arena: FileArena,
    pub listing: Listing,
    pub symbols: SymbolTable,
    /// The fragments of code, in the order in which they were placed.
    pub code_object: Vec<Fragment>,
    /// What there is to report, in the order in which it was found.
    pub diagnostics: Vec<Diagnostic>,
}

/// What a `GlobalData` stands for.
pub struct State {
    pub files: Seq<(Seq<char>, Seq<char>)>,
    pub listing: Map<(usize, usize), CodeRef>,
    pub symbols: Map<Seq<char>, u32>,
    pub code: Seq<(u32, Seq<u8>)>,
    pub diagnostics: Seq<Diagnostic>,
}

impl View for GlobalData {
    type V = State;

    open spec fn view(&self) -> State {
        State {
            files: self.arena@,
            listing: self.listing@,
            symbols: self.symbols@,
            code: fragment_views(self.code_object@),
            diagnostics: self.diagnostics@,
        }
    }
}

impl State {
    /// The state with the diagnostics for the failure `f` of the statement
    /// that is written at `span` in the file `file`.
    pub open spec fn failed(self, f: Failure, span: Span, file: usize) -> State {
        State { diagnostics: self.diagnostics + f.reports(span, file), ..self }
    }
}

/// Where a statement is placed, the value that its label gets, and the
/// address behind its code.
pub struct Placement {
    pub at: u32,
    pub value: u32,
    pub next: int,
}

impl Emission {
    /// Where the statement is placed when the program counter is `pc`.
    pub open spec fn placement(self, pc: u32) -> Placement {
        Placement {
            at: self.address(pc),
            value: match self.value {
                Some(v) => v,
                None => self.address(pc),
            },
            next: self.address(pc) + self.code.len(),
        }
    }
}

/// The first pass over one statement that is no `INCLUDE`: it is encoded
/// in a dry run, with a missing symbol looked up as zero; its label is
/// defined as the address that it is placed at, or as the value that it
/// gives it; and the program counter moves behind its code. The state that
/// comes with a failure holds the diagnostics for it.
#[verifier::opaque]
pub open spec fn define(stmt: Statement, pc: u32, st: State, file: usize) -> (State, Result<
    u32,
    Failure,
>) {
    match statement_code(stmt, pc, Lookup { table: st.symbols, permissive: true }, file, true) {
        Err(f) => (st.failed(f, stmt.span, file), Err(f)),
        Ok(e) => {
            let p = e.placement(pc);
            match stmt.label {
                Some(label) if st.symbols.contains_key(label.name@) => (
                    st.failed(Failure::DuplicateLabel, label.span, file),
                    Err(Failure::DuplicateLabel),
                ),
                _ => {
                    let defined = State {
                        symbols: match stmt.label {
                            Some(label) => st.symbols.insert(label.name@, p.value),
                            None => st.symbols,
                        },
                        ..st
                    };
                    if p.next > u32::MAX {
                        (
                            defined.failed(Failure::AddressOverflow, stmt.span, file),
                            Err(Failure::AddressOverflow),
                        )
                    } else {
                        (defined, Ok(p.next as u32))
                    }
                },
            }
        },
    }
}

/// The diagnostics that warn of the data items written at `spans`.
pub open spec fn warnings(spans: Seq<Span>, file: usize) -> Seq<Diagnostic> {
    Seq::new(
        spans.len(),
        |i: int|
            Diagnostic {
                kind: ErrorKind::Warning,
                file,
                span: spans[i],
                problem: Problem::Truncation,
            },
    )
}

/// The state with the code of `e` placed as one more fragment, for the
/// statement that is written at `span` in the text `bytes` of the file
/// `file`.
pub open spec fn placed(st: State, e: Emission, pc: u32, span: Span, file: usize, bytes: Seq<u8>, create_listing: bool) -> State {
    State {
        code: st.code.push((e.address(pc), e.code)),
        listing: if create_listing {
            with_fragment(st.listing, file, statement_lines(bytes, span), st.code.len() as usize)
        } else {
            st.listing
        },
        diagnostics: st.diagnostics + warnings(e.warnings, file),
        ..st
    }
}

/// The second pass over one statement that is no `INCLUDE`: it is encoded
/// with the symbols of the table, and its code is placed as one more
/// fragment. Where it uses symbols that are not defined, they are
/// reported, and what is placed is the code of a dry run, so that the
/// statements behind it keep their addresses.
#[verifier::opaque]
pub open spec fn emit(
    stmt: Statement,
    pc: u32,
    st: State,
    file: usize,
    bytes: Seq<u8>,
    create_listing: bool,
) -> (State, Result<u32, Failure>) {
    let strict = statement_code(stmt, pc, Lookup { table: st.symbols, permissive: false }, file, false);
    let reported = match strict {
        Err(Failure::Undefined(errors)) => st.failed(Failure::Undefined(errors), stmt.span, file),
        _ => st,
    };
    let outcome = match strict {
        Err(Failure::Undefined(_)) => statement_code(
            stmt,
            pc,
            Lookup { table: st.symbols, permissive: true },
            file,
            true,
        ),
        other => other,
    };
    match outcome {
        Err(f) => (reported.failed(f, stmt.span, file), Err(f)),
        Ok(e) => {
            let e = if strict is Ok { e } else { Emission { warnings: Seq::empty(), ..e } };
            let st = placed(reported, e, pc, stmt.span, file, bytes, create_listing);
            if e.placement(pc).next > u32::MAX {
                (
                    st.failed(Failure::AddressOverflow, stmt.span, file),
                    Err(Failure::AddressOverflow),
                )
            } else {
                (st, Ok(e.placement(pc).next as u32))
            }
        },
    }
}

/// The first pass over the statements of `unit` from the `i`-th on, of
/// which the next `INCLUDE` is the `k`-th of the unit. An included file
/// goes through both of its passes there and then, and the address that it
/// ends at is kept in `ends` for the second pass.
pub open spec fn first_pass(
    unit: SourceUnit,
    i: int,
    k: int,
    pc: u32,
    ends: Seq<u32>,
    st: State,
    file: usize,
    create_listing: bool,
) -> (State, Result<Seq<u32>, Failure>)
    decreases unit, unit.statements@.len() - i,
{
    if i < 0 || i >= unit.statements@.len() {
        (st, Ok(ends))
    } else if unit.statements@[i].is_include() {
        if k < 0 || k >= unit.includes@.len() {
            (
                st.failed(Failure::MissingInclude, unit.statements@[i].span, file),
                Err(Failure::MissingInclude),
            )
        } else {
            match run(unit.includes@[k], pc, st, create_listing) {
                (after, Ok(end)) => first_pass(
                    unit,
                    i + 1,
                    k + 1,
                    end,
                    ends.push(end),
                    after,
                    file,
                    create_listing,
                ),
                (after, Err(f)) => (after, Err(f)),
            }
        }
    } else {
        match define(unit.statements@[i], pc, st, file) {
            (after, Ok(next)) => first_pass(unit, i + 1, k, next, ends, after, file, create_listing),
            (after, Err(f)) => (after, Err(f)),
        }
    }
}

/// The second pass over the statements of `unit` from the `i`-th on, of
/// which the next `INCLUDE` is the `k`-th of the unit: behind an `INCLUDE`
/// the program counter is where the included file ended.
pub open spec fn second_pass(
    unit: SourceUnit,
    i: int,
    k: int,
    pc: u32,
    ends: Seq<u32>,
    st: State,
    file: usize,
    create_listing: bool,
) -> (State, Result<u32, Failure>)
    decreases unit.statements@.len() - i,
{
    if i < 0 || i >= unit.statements@.len() {
        (st, Ok(pc))
    } else if unit.statements@[i].is_include() {
        second_pass(
            unit,
            i + 1,
            k + 1,
            if 0 <= k < ends.len() {
                ends[k]
            } else {
                pc
            },
            ends,
            st,
            file,
            create_listing,
        )
    } else {
        match emit(unit.statements@[i], pc, st, file, encode_utf8(unit.text@), create_listing) {
            (after, Ok(next)) => second_pass(unit, i + 1, k, next, ends, after, file, create_listing),
            (after, Err(f)) => (after, Err(f)),
        }
    }
}

/// Both passes over `unit`, which starts at the address `entrypoint`: the
/// file is registered, its labels are defined, its code is placed. The
/// result is the address that it ends at, or the failure that ended the
/// assembly.
pub open spec fn run(unit: SourceUnit, entrypoint: u32, st: State, create_listing: bool) -> (
    State,
    Result<u32, Failure>,
)
    decreases unit, unit.statements@.len() + 1,
{
    let file = st.files.len() as usize;
    let registered = State { files: st.files.push((unit.path@, unit.text@)), ..st };
    match first_pass(unit, 0, 0, entrypoint, Seq::empty(), registered, file, create_listing) {
        (after, Err(f)) => (after, Err(f)),
        (after, Ok(ends)) => second_pass(unit, 0, 0, entrypoint, ends, after, file, create_listing),
    }
}

/// The first pass over one statement that is no `INCLUDE`.
pub fn define_statement(stmt: &Statement, pc: u32, global_data: &mut GlobalData, file: usize) -> (res:
    Result<u32, CodeError>)
    ensures
        (final(global_data)@, lift(res)) == define(*stmt, pc, old(global_data)@, file),
{
    reveal(define);
    let encoded = match code_for_statement(
        stmt,
        pc,
        &NonFailingMap(&global_data.symbols),
        file,
        true,
    ) {
        Ok(encoded) => encoded,
        Err(e) => {
            e.report(&mut global_data.diagnostics, stmt.span, file);
            return Err(e);
        },
    };
    let at: u32 = match encoded.start_addr {
        Some(a) => a,
        None => pc,
    };
    let value: u32 = match encoded.value {
        Some(v) => v,
        None => at,
    };
    match encoded.label {
        Some(label) => {
            if !global_data.symbols.insert(label.name.clone(), value) {
                let e = CodeError::DuplicateLabel;
                e.report(&mut global_data.diagnostics, label.span, file);
                return Err(e);
            }
        },
        None => {},
    }
    if encoded.code.len() > (u32::MAX - at) as usize {
        let e = CodeError::AddressOverflow;
        e.report(&mut global_data.diagnostics, stmt.span, file);
        Err(e)
    } else {
        Ok(at + encoded.code.len() as u32)
    }
}

/// Appends the diagnostics that warn of the data items written at `spans`.
fn push_warnings(diagnostics: &mut Vec<Diagnostic>, spans: &Vec<Span>, file: usize)
    ensures
        final(diagnostics)@ == old(diagnostics)@ + warnings(spans@, file),
{
    let mut i: usize = 0;
    assert(diagnostics@ =~= old(diagnostics)@ + warnings(spans@, file).take(0));
    while i < spans.len()
        invariant
            i <= spans.len(),
            diagnostics@ == old(diagnostics)@ + warnings(spans@, file).take(i as int),
        decreases spans.len() - i,
    {
        diagnostics.push(
            Diagnostic {
                kind: ErrorKind::Warning,
                file,
                span: spans[i],
                problem: Problem::Truncation,
            },
        );
        i += 1;
        assert(diagnostics@ =~= old(diagnostics)@ + warnings(spans@, file).take(i as int));
    }
    assert(warnings(spans@, file).take(i as int) =~= warnings(spans@, file));
}

/// The second pass over one statement that is no `INCLUDE`, which is
/// written in the text `text` of the file `file`.
pub fn emit_statement(
    stmt: &Statement,
    pc: u32,
    global_data: &mut GlobalData,
    file: usize,
    text: &str,
    create_listing: bool,
) -> (res: Result<u32, CodeError>)
    ensures
        (final(global_data)@, lift(res)) == emit(
            *stmt,
            pc,
            old(global_data)@,
            file,
            text.spec_bytes(),
            create_listing,
        ),
{
    reveal(emit);
    let strict = code_for_statement(stmt, pc, &global_data.symbols, file, false);
    let ghost before = global_data@;
    let (outcome, whole): (Result<Encoded, CodeError>, bool) = match strict {
        Err(CodeError::UndefinedSymbols(errors)) => {
            let e = CodeError::UndefinedSymbols(errors);
            e.report(&mut global_data.diagnostics, stmt.span, file);
            (
                code_for_statement(stmt, pc, &NonFailingMap(&global_data.symbols), file, true),
                false,
            )
        },
        other => (other, true),
    };
    let ghost reported = global_data@;
    match outcome {
        Err(f) => {
            f.report(&mut global_data.diagnostics, stmt.span, file);
            Err(f)
        },
        Ok(encoded) => {
            let at: u32 = match encoded.start_addr {
                Some(a) => a,
                None => pc,
            };
            let idx: usize = global_data.code_object.len();
            let len: usize = encoded.code.len();
            let ghost e = if whole {
                encoded@
            } else {
                Emission { warnings: Seq::empty(), ..encoded@ }
            };
            if whole {
                push_warnings(&mut global_data.diagnostics, &encoded.warnings, file);
            } else {
                assert(global_data.diagnostics@ =~= reported.diagnostics + warnings(
                    Seq::<Span>::empty(),
                    file,
                ));
            }
            global_data.code_object.push((at, encoded.code));
            assert(fragment_views(global_data.code_object@) =~= reported.code.push((at, e.code)));
            if create_listing {
                global_data.listing.add_statement(file, text, stmt.span, idx);
            }
            assert(global_data@ == placed(
                reported,
                e,
                pc,
                stmt.span,
                file,
                text.spec_bytes(),
                create_listing,
            ));
            if len > (u32::MAX - at) as usize {
                let e = CodeError::AddressOverflow;
                e.report(&mut global_data.diagnostics, stmt.span, file);
                Err(e)
            } else {
                Ok(at + len as u32)
            }
        },
    }
}

/// Both passes over `unit`, which starts at the address `entrypoint`. The
/// result is the address that it ends at.
pub fn run_passes(
    unit: &SourceUnit,
    entrypoint: u32,
    global_data: &mut GlobalData,
    create_listing: bool,
) -> (res: Result<u32, CodeError>)
    ensures
        (final(global_data)@, lift(res)) == run(
            *unit,
            entrypoint,
            old(global_data)@,
            create_listing,
        ),
    decreases unit,
{
    let file: usize = global_data.arena.add_contents(unit.path.clone(), unit.text.clone());
    let ghost registered = global_data@;
    let mut pc: u32 = entrypoint;
    let mut include_end_addr: Vec<u32> = Vec::new();
    let mut i: usize = 0;
    let mut k: usize = 0;
    while i < unit.statements.len()
        invariant
            i <= unit.statements.len(),
            k <= i,
            file == old(global_data)@.files.len(),
            registered == (State {
                files: old(global_data)@.files.push((unit.path@, unit.text@)),
                ..old(global_data)@
            }),
            first_pass(*unit, i as int, k as int, pc, include_end_addr@, global_data@, file, create_listing)
                == first_pass(*unit, 0, 0, entrypoint, Seq::empty(), registered, file, create_listing),
        decreases unit.statements.len() - i,
    {
        let stmt = &unit.statements[i];
        if stmt.includes() {
            if k >= unit.includes.len() {
                let e = CodeError::MissingInclude;
                e.report(&mut global_data.diagnostics, stmt.span, file);
                return Err(e);
            }
            match run_passes(&unit.includes[k], pc, global_data, create_listing) {
                Ok(end) => {
                    pc = end;
                    include_end_addr.push(end);
                    k += 1;
                },
                Err(e) => {
                    return Err(e);
                },
            }
        } else {
            match define_statement(stmt, pc, global_data, file) {
                Ok(next) => {
                    pc = next;
                },
                Err(e) => {
                    return Err(e);
                },
            }
        }
        i += 1;
    }
    let ghost defined = global_data@;
    pc = entrypoint;
    i = 0;
    k = 0;
    while i < unit.statements.len()
        invariant
            i <= unit.statements.len(),
            k <= i,
            file == old(global_data)@.files.len(),
            registered == (State {
                files: old(global_data)@.files.push((unit.path@, unit.text@)),
                ..old(global_data)@
            }),
            first_pass(*unit, 0, 0, entrypoint, Seq::empty(), registered, file, create_listing) == (
                defined,
                Ok::<Seq<u32>, Failure>(include_end_addr@),
            ),
            second_pass(*unit, i as int, k as int, pc, include_end_addr@, global_data@, file, create_listing)
                == second_pass(
                *unit,
                0,
                0,
                entrypoint,
                include_end_addr@,
                defined,
                file,
                create_listing,
            ),
        decreases unit.statements.len() - i,
    {
        let stmt = &unit.statements[i];
        if stmt.includes() {
            if k < include_end_addr.len() {
                pc = include_end_addr[k];
            }
            k += 1;
        } else {
            match emit_statement(stmt, pc, global_data, file, unit.text.as_str(), create_listing) {
                Ok(next) => {
                    pc = next;
                },
                Err(e) => {
                    return Err(e);
                },
            }
        }
        i += 1;
    }
    Ok(pc)
}

impl GlobalData {
    /// What an assembly has gathered before it begins.
    pub fn new() -> (res: Self)
        ensures
            res@ == State::empty(),
    {
        let res = GlobalData {
            arena: FileArena::new(),
            listing: Listing::new(),
            symbols: SymbolTable::new(),
            code_object: Vec::new(),
            diagnostics: Vec::new(),
        };
        assert(fragment_views(res.code_object@) =~= Seq::empty());
        res
    }
}

impl State {
    /// The state of an assembly before it begins.
    pub open spec fn empty() -> State {
        State {
            files: Seq::empty(),
            listing: Map::empty(),
            symbols: Map::empty(),
            code: Seq::empty(),
            diagnostics: Seq::empty(),
        }
    }
}

/// Assembles `root` and the files that it includes, from the address zero
/// on. The result is what the assembly has gathered, and the address that
/// it ends at or the failure that ended it.
pub fn assemble(root: &SourceUnit, create_listing: bool) -> (res: (GlobalData, Result<u32, CodeError>))
    ensures
        (res.0@, lift(res.1)) == run(*root, 0, State::empty(), create_listing),
{
    let mut global_data = GlobalData::new();
    let end = run_passes(root, 0, &mut global_data, create_listing);
    (global_data, end)
}

} // verus!
