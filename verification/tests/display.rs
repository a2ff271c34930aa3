use m68kasm::ast::Span;
use m68kasm::display::{in_range, multiply_if_tab, NoChange, RuleDisplay, SpanErrorDisplay};
use m68kasm::error::{Diagnostic, ErrorKind, Problem, SymbolError};
use m68kasm::file::FileRef;
use m68kasm::lexer::{ErrorLocation, ParseError, ParseProblem, Rule};
use m68kasm::parser::ASMParser;
use m68kasm::passes::{assemble, SourceUnit};

const NOTE: &str = "note: Maybe it is on an expression for ORG, in which case the symbol has to be defined before this line\n";

fn text_of(rendered: Vec<u8>) -> String {
    String::from_utf8(rendered).unwrap()
}

fn diagnostic(problem: Problem, start: usize, end: usize) -> Diagnostic {
    Diagnostic { kind: ErrorKind::Error, file: 0, span: Span { start, end }, problem }
}

#[test]
fn undefined_symbol_with_its_lines() {
    let text = "  MOVE.L #late,D0\n\tJMP\tgone\n NOP\n RTS\n";
    let file = FileRef::new("dir/t.s", text);
    let shown = SpanErrorDisplay::from_symbol_error(
        &SymbolError::new(Span { start: 23, end: 27 }, 0),
        file,
    );
    assert_eq!(shown.message, b"symbol `gone` is undefined".to_vec());
    assert_eq!(shown.position, ErrorLocation::Span(23, 27));
    assert_eq!(shown.kind, ErrorKind::Error);
    let expected = String::new()
        + "[ERR] symbol `gone` is undefined -> dir/t.s:2:6\n"
        + "    1 |   MOVE.L #late,D0\n"
        + "    2 |     JMP    gone\n"
        + "      |            ^^^^\n"
        + "    3 |  NOP\n"
        + NOTE;
    assert_eq!(text_of(shown.render()), expected);
}

#[test]
fn diagnostics_of_an_assembly() {
    let text = "twice: NOP\n DC.B 300\ntwice: JMP nowhere\n";
    let unit = SourceUnit {
        path: "a.s".to_string(),
        text: text.to_string(),
        statements: ASMParser::parse(text).unwrap(),
        includes: Vec::new(),
    };
    let (global, _) = assemble(&unit, false);
    let file = FileRef::new("a.s", text);
    assert_eq!(
        text_of(SpanErrorDisplay::from_diagnostic(&global.diagnostics[0], file).render()),
        String::new()
            + "[ERR] symbol `twice` is already defined -> a.s:3:1\n"
            + "    2 |  DC.B 300\n"
            + "    3 | twice: JMP nowhere\n"
            + "      | ^^^^^             \n"
    );
    let text = " DC.B 300\n";
    let unit = SourceUnit {
        path: "a.s".to_string(),
        text: text.to_string(),
        statements: ASMParser::parse(text).unwrap(),
        includes: Vec::new(),
    };
    let (global, _) = assemble(&unit, false);
    let file = FileRef::new("a.s", text);
    assert_eq!(
        text_of(SpanErrorDisplay::from_diagnostic(&global.diagnostics[0], file).render()),
        String::new()
            + "[WARN] expression is bigger than expected, truncating -> a.s:1:7\n"
            + "    1 |  DC.B 300\n"
            + "      |       ^^^\n"
    );
}

#[test]
fn problems_have_messages() {
    let file = FileRef::new("f", "abc def");
    let message = |problem| {
        let shown = SpanErrorDisplay::from_diagnostic(&diagnostic(problem, 4, 7), file);
        (String::from_utf8(shown.message).unwrap(), shown.note.is_some())
    };
    assert_eq!(message(Problem::UndefinedSymbol), ("symbol `def` is undefined".to_string(), true));
    assert_eq!(message(Problem::DuplicateLabel), ("symbol `def` is already defined".to_string(), false));
    assert_eq!(
        message(Problem::Truncation),
        ("expression is bigger than expected, truncating".to_string(), false)
    );
    assert_eq!(message(Problem::DivisionByZero), ("division by zero".to_string(), false));
    assert_eq!(
        message(Problem::InvalidOperands),
        ("the operation does not take these operands".to_string(), false)
    );
    assert_eq!(
        message(Problem::InvalidSize),
        ("the operation does not take this size".to_string(), false)
    );
    assert_eq!(
        message(Problem::InvalidCount),
        ("a negative number of values cannot be reserved".to_string(), false)
    );
    assert_eq!(
        message(Problem::AddressOverflow),
        ("the code does not fit in the address space".to_string(), false)
    );
    assert_eq!(
        message(Problem::MissingInclude),
        ("the included file was not handed in".to_string(), false)
    );
    // a span that does not lie in the text shows nothing of it
    let shown = SpanErrorDisplay::from_diagnostic(&diagnostic(Problem::UndefinedSymbol, 4, 8), file);
    assert_eq!(shown.message, b"symbol `` is undefined".to_vec());
}

#[test]
fn parse_error_points_at_one_position() {
    let text = "first: NOP\r\n MOVE D0,\r\n RTS";
    let error = ASMParser::parse(text).unwrap_err();
    assert_eq!(
        error,
        ParseError {
            problem: ParseProblem::Expected(Rule::Expression),
            location: ErrorLocation::Span(22, 23),
        }
    );
    // the line feed that the error points at is behind what is shown of its line
    let shown = SpanErrorDisplay::from_parse_error(&error, FileRef::new("p.s", text), &NoChange);
    assert_eq!(
        text_of(shown.render()),
        String::new()
            + "[ERR] expected expression -> p.s:2:11\n"
            + "    1 | first: NOP\n"
            + "    2 |  MOVE D0,\n"
            + "      |          \n"
            + "    3 |  RTS\n"
            + "      |     \n"
    );
    let error = ParseError {
        problem: ParseProblem::Unexpected(Rule::Character),
        location: ErrorLocation::Single(1),
    };
    let shown = SpanErrorDisplay::from_parse_error(&error, FileRef::new("p.s", "a?b"), &NoChange);
    assert_eq!(
        text_of(shown.render()),
        "[ERR] unexpected character -> p.s:1:2\n    1 | a?b\n      |  ^ \n"
    );
    let error = ParseError { problem: ParseProblem::LiteralOverflow, location: ErrorLocation::Span(0, 2) };
    let shown = SpanErrorDisplay::from_parse_error(&error, FileRef::new("p.s", "99"), &NoChange);
    assert_eq!(shown.message, b"number does not fit in 32 bits".to_vec());
}

#[test]
fn a_range_over_several_lines() {
    let text = "one\ntwo words\nthree\nfour\nfive\n";
    let shown = SpanErrorDisplay {
        position: ErrorLocation::Span(8, 16),
        file: FileRef::new("m.s", text),
        kind: ErrorKind::Warning,
        message: b"look".to_vec(),
        note: Some("twice"),
    };
    assert_eq!(
        text_of(shown.render()),
        String::new()
            + "[WARN] look -> m.s:2:5\n"
            + "    1 | one\n"
            + "    2 | two words\n"
            + "      |     ^^^^^\n"
            + "    3 | three\n"
            + "      | ^^   \n"
            + "    4 | four\n"
            + "note: twice\n"
    );
}

#[test]
fn lines_and_columns_count_characters() {
    // two bytes for the first character, and a line that ends in a carriage return
    let text = "é = 1\r\nß: NOP ö\r\n";
    let at = |start: usize, end: usize| {
        let shown = SpanErrorDisplay {
            position: ErrorLocation::Span(start, end),
            file: FileRef::new("u.s", text),
            kind: ErrorKind::Error,
            message: Vec::new(),
            note: None,
        };
        text_of(shown.render())
    };
    assert_eq!(
        at(12, 15),
        String::new() + "[ERR]  -> u.s:2:4\n" + "    1 | é = 1\n" + "    2 | ß: NOP ö\n" + "      |    ^^^  \n"
    );
    assert_eq!(
        at(16, 18),
        String::new() + "[ERR]  -> u.s:2:8\n" + "    1 | é = 1\n" + "    2 | ß: NOP ö\n" + "      |        ^\n"
    );
    assert_eq!(at(0, 2).lines().next(), Some("[ERR]  -> u.s:1:1"));
    assert_eq!(at(2, 3).lines().next(), Some("[ERR]  -> u.s:1:2"));
    assert_eq!(at(7, 8).lines().next(), Some("[ERR]  -> u.s:1:7"));
    assert_eq!(at(8, 10).lines().next(), Some("[ERR]  -> u.s:2:1"));
    assert_eq!(at(10, 11).lines().next(), Some("[ERR]  -> u.s:2:2"));
    assert_eq!(at(19, 19).lines().next(), Some("[ERR]  -> u.s:2:10"));
    assert_eq!(at(20, 20).lines().next(), Some("[ERR]  -> u.s:3:1"));
    // a position inside a character, or behind the text, counts as the start of the text
    assert_eq!(at(1, 2).lines().next(), Some("[ERR]  -> u.s:1:1"));
    assert_eq!(at(9, 10).lines().next(), Some("[ERR]  -> u.s:1:1"));
    assert_eq!(at(21, 22).lines().next(), Some("[ERR]  -> u.s:1:1"));
}

#[test]
fn range_of_a_caret() {
    let end = Some((3, 4));
    assert!(in_range((2, 5), end, (2, 5)));
    assert!(in_range((2, 5), end, (2, 99)));
    assert!(!in_range((2, 5), end, (2, 4)));
    assert!(!in_range((2, 5), end, (1, 9)));
    assert!(in_range((2, 5), end, (3, 1)));
    assert!(in_range((2, 5), end, (3, 3)));
    assert!(!in_range((2, 5), end, (3, 4)));
    assert!(!in_range((2, 5), end, (4, 1)));
    assert!(!in_range((2, 5), Some((2, 5)), (2, 5)));
    assert!(in_range((2, 5), None, (2, 5)));
    assert!(!in_range((2, 5), None, (2, 6)));
    assert!(!in_range((2, 5), None, (3, 5)));
}

#[test]
fn marks_are_as_wide_as_a_tab() {
    let mut out = vec![b'|'];
    multiply_if_tab(&mut out, b'\t', b'^');
    multiply_if_tab(&mut out, b'x', b' ');
    multiply_if_tab(&mut out, b' ', b'^');
    assert_eq!(out, b"|^^^^ ^".to_vec());
}

#[test]
fn rules_and_kinds_are_written_out() {
    let names = [
        (Rule::Character, "character"),
        (Rule::Digit, "digit"),
        (Rule::Quote, "closing quote"),
        (Rule::Statement, "instruction or directive"),
        (Rule::Expression, "expression"),
        (Rule::Size, "size"),
        (Rule::ClosingParenthesis, "closing parenthesis"),
        (Rule::EndOfLine, "end of line"),
        (Rule::Path, "path"),
    ];
    for (rule, name) in names {
        let mut out = Vec::new();
        NoChange.rule_as_display(&rule, &mut out);
        assert_eq!(out, name.as_bytes());
    }
    let mut out = Vec::new();
    ErrorKind::Error.push_text(&mut out);
    ErrorKind::Warning.push_text(&mut out);
    assert_eq!(out, b"[ERR][WARN]".to_vec());
    assert_eq!(ErrorLocation::Single(4).split(), (4, None));
    assert_eq!(ErrorLocation::Span(4, 9).split(), (4, Some(9)));
}
