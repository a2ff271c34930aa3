use m68kasm::error::{CodeError, ErrorKind, Problem};
use m68kasm::parser::ASMParser;
use m68kasm::passes::{assemble, GlobalData, SourceUnit};
use m68kasm::srec::SRec;
use m68kasm::symbols::{SymbolMap, SymbolTable};

fn unit(path: &str, text: &str) -> SourceUnit {
    let statements = match ASMParser::parse(text) {
        Ok(statements) => statements,
        Err(e) => panic!("{e:?}"),
    };
    SourceUnit { path: path.to_string(), text: text.to_string(), statements, includes: Vec::new() }
}

fn run(text: &str) -> (GlobalData, Result<u32, CodeError>) {
    assemble(&unit("test.s", text), false)
}

fn bytes_of(global: &GlobalData) -> Vec<u8> {
    global.code_object.iter().flat_map(|(_, code)| code.iter().copied()).collect()
}

fn srec_lines(global: &GlobalData) -> Vec<String> {
    SRec::new(&global.code_object).to_string().lines().map(|l| l.to_string()).collect()
}

fn value_of(symbols: &SymbolTable, name: &str) -> Option<u32> {
    symbols.get(name)
}

#[test]
fn scenario_nop() {
    let (global, end) = run("NOP");
    assert_eq!(end, Ok(2));
    assert_eq!(bytes_of(&global), vec![0x4E, 0x71]);
    assert_eq!(srec_lines(&global), vec!["S004000020DB", "S10500004E713B", "S9030000FC"]);
}

#[test]
fn scenario_org_and_label() {
    let (global, end) = run("ORG $1000\nlabel: RTS");
    assert_eq!(end, Ok(0x1002));
    assert_eq!(bytes_of(&global), vec![0x4E, 0x75]);
    assert_eq!(value_of(&global.symbols, "label"), Some(0x1000));
    assert_eq!(srec_lines(&global), vec!["S004000020DB", "S10510004E7527", "S9030000FC"]);
}

#[test]
fn scenario_move_long_immediate() {
    let (global, end) = run("MOVE.L #$12345678,D0");
    assert_eq!(end, Ok(6));
    assert_eq!(bytes_of(&global), vec![0x20, 0x3C, 0x12, 0x34, 0x56, 0x78]);
    assert_eq!(srec_lines(&global)[1], "S1090000203C1234567886");
}

#[test]
fn scenario_bsr_forward() {
    let (global, end) = run("start: BSR sub\n sub: RTS");
    assert_eq!(end, Ok(6));
    assert_eq!(bytes_of(&global), vec![0x61, 0x00, 0x00, 0x02, 0x4E, 0x75]);
    assert_eq!(value_of(&global.symbols, "start"), Some(0));
    assert_eq!(value_of(&global.symbols, "sub"), Some(4));
    assert!(global.diagnostics.is_empty());
    assert_eq!(srec_lines(&global)[1], "S1090000610000024E75D0");
}

#[test]
fn scenario_clr_word() {
    let (global, _) = run("CLR.W D1");
    assert_eq!(bytes_of(&global), vec![0x42, 0x41]);
    assert_eq!(srec_lines(&global)[1], "S1050000424177");
}

#[test]
fn scenario_link_negative() {
    let (global, _) = run("LINK A6,#-8");
    assert_eq!(bytes_of(&global), vec![0x4E, 0x56, 0xFF, 0xF8]);
    assert_eq!(srec_lines(&global)[1], "S10700004E56FFF85D");
}

#[test]
fn immediate_byte_takes_a_word() {
    let (global, _) = run("MOVE.B #$FF,D0");
    assert_eq!(bytes_of(&global), vec![0x10, 0x3C, 0x00, 0xFF]);
}

#[test]
fn branch_to_next_word_has_zero_displacement() {
    let (global, _) = run(" BNE next\nnext: NOP");
    assert_eq!(bytes_of(&global), vec![0x66, 0x00, 0x00, 0x02, 0x4E, 0x71]);
    // the target is the address behind the instruction word
    let (global, _) = run("target: EQU $1002\n ORG $1000\n BEQ target");
    assert_eq!(bytes_of(&global), vec![0x67, 0x00, 0x00, 0x00]);
}

#[test]
fn dc_byte_truncates_with_a_warning() {
    let text = " DC.B 'A','B',256";
    let (global, end) = run(text);
    assert_eq!(end, Ok(3));
    assert_eq!(bytes_of(&global), vec![0x41, 0x42, 0x00]);
    assert_eq!(global.diagnostics.len(), 1);
    let warning = global.diagnostics[0];
    assert_eq!(warning.kind, ErrorKind::Warning);
    assert_eq!(warning.problem, Problem::Truncation);
    assert_eq!(&text[warning.span.start..warning.span.end], "256");
}

#[test]
fn org_places_the_first_fragment() {
    let (global, _) = run(" ORG $1000\n NOP");
    let first = global.code_object.iter().find(|(_, code)| !code.is_empty()).unwrap();
    assert_eq!(first.0, 0x1000);
    assert_eq!(first.1, vec![0x4E, 0x71]);
}

#[test]
fn instructions_start_at_even_addresses() {
    let (global, end) = run(" DC.B 1\n NOP\n DC.B 2,3,4\n RTS");
    assert_eq!(end, Ok(0x0A));
    assert_eq!(
        global.code_object,
        vec![(0, vec![1]), (2, vec![0x4E, 0x71]), (4, vec![2, 3, 4]), (8, vec![0x4E, 0x75])]
    );
}

#[test]
fn labels_hold_the_address_of_their_statement() {
    let (global, _) = run("a: DC.B 1\nb: NOP\nc: DC.L 1\nd:\n RTS\ne: EQU $42\n");
    assert_eq!(value_of(&global.symbols, "a"), Some(0));
    assert_eq!(value_of(&global.symbols, "b"), Some(2));
    assert_eq!(value_of(&global.symbols, "c"), Some(4));
    assert_eq!(value_of(&global.symbols, "d"), Some(8));
    assert_eq!(value_of(&global.symbols, "e"), Some(0x42));
    let addresses: Vec<u32> = global.code_object.iter().map(|(a, _)| *a).collect();
    assert_eq!(addresses, vec![0, 2, 4, 8, 10]);
}

#[test]
fn undefined_symbols_are_collected() {
    let text = " MOVE.L #one+two,D0\n JMP three\n NOP";
    let (global, end) = run(text);
    assert_eq!(end, Ok(14));
    let names: Vec<&str> =
        global.diagnostics.iter().map(|d| &text[d.span.start..d.span.end]).collect();
    assert_eq!(names, vec!["one", "two", "three"]);
    assert!(global.diagnostics.iter().all(|d| d.problem == Problem::UndefinedSymbol));
    assert!(global.diagnostics.iter().all(|d| d.kind == ErrorKind::Error));
    assert_eq!(global.code_object.len(), 3);
    assert_eq!(global.code_object[2], (12, vec![0x4E, 0x71]));
}

#[test]
fn duplicate_label_ends_the_assembly() {
    let (global, end) = run("twice: NOP\ntwice: RTS");
    assert_eq!(end, Err(CodeError::DuplicateLabel));
    assert_eq!(global.diagnostics.len(), 1);
    assert_eq!(global.diagnostics[0].problem, Problem::DuplicateLabel);
    assert!(global.code_object.is_empty());
}

#[test]
fn org_does_not_take_a_forward_reference() {
    let (global, end) = run(" ORG later\nlater: NOP");
    assert!(matches!(end, Err(CodeError::UndefinedSymbols(_))));
    assert_eq!(global.diagnostics.len(), 1);
    assert_eq!(global.diagnostics[0].problem, Problem::UndefinedSymbol);
}

#[test]
fn division_by_zero_ends_the_assembly() {
    let (_, end) = run(" DC.W 1/0");
    assert_eq!(end, Err(CodeError::DivisionByZero));
    let (_, end) = run(" DC.W 1\\0");
    assert_eq!(end, Err(CodeError::DivisionByZero));
}

#[test]
fn ds_reserves_zero_bytes() {
    let (global, end) = run(" DS.W 3\n DS.B 1\n DS.L 2");
    assert_eq!(end, Ok(15));
    assert_eq!(global.code_object, vec![(0, vec![0; 6]), (6, vec![0]), (7, vec![0; 8])]);
    let (_, end) = run(" DS.B -1");
    assert_eq!(end, Err(CodeError::InvalidCount));
    let (_, end) = run(" ORG $FFFFFFF0\n DS.L 4");
    assert_eq!(end, Err(CodeError::AddressOverflow));
}

#[test]
fn included_files_are_assembled_in_place() {
    let mut root = unit("root.s", "first: NOP\n INCLUDE \"sub.s\"\nlast: RTS\n JMP inner");
    root.includes.push(unit("sub.s", "inner: DC.W first\n DC.W 2"));
    let (global, end) = assemble(&root, false);
    assert_eq!(end, Ok(14));
    assert_eq!(value_of(&global.symbols, "first"), Some(0));
    assert_eq!(value_of(&global.symbols, "inner"), Some(2));
    assert_eq!(value_of(&global.symbols, "last"), Some(6));
    assert_eq!(
        global.code_object,
        vec![
            (2, vec![0, 0]),
            (4, vec![0, 2]),
            (0, vec![0x4E, 0x71]),
            (6, vec![0x4E, 0x75]),
            (8, vec![0x4E, 0xF9, 0, 0, 0, 2]),
        ]
    );
    assert_eq!(global.arena.len(), 2);
    let files = global.arena.into_files();
    assert_eq!(files[0].file, "root.s");
    assert_eq!(files[1].file, "sub.s");
    assert_eq!(files[1].contents, "inner: DC.W first\n DC.W 2");
}

#[test]
fn missing_include_ends_the_assembly() {
    let root = unit("root.s", " INCLUDE other.s");
    let (global, end) = assemble(&root, false);
    assert_eq!(end, Err(CodeError::MissingInclude));
    assert_eq!(global.diagnostics[0].problem, Problem::MissingInclude);
}
