use m68kasm::ast::Span;
use m68kasm::listing::{lines_of_statement, CodeRef, Listing};
use m68kasm::parser::ASMParser;
use m68kasm::passes::{assemble, SourceUnit};

fn unit(path: &str, text: &str) -> SourceUnit {
    SourceUnit {
        path: path.to_string(),
        text: text.to_string(),
        statements: ASMParser::parse(text).unwrap(),
        includes: Vec::new(),
    }
}

fn banner(path: &str) -> String {
    format!("\n{:=^130}\n\n", format!(" {path} "))
}

fn row(pc: u32, bytes: &str, line_no: usize, source: &str) -> String {
    format!("{pc:08X}  {bytes:<30} {line_no:>5}  {source}\n")
}

#[test]
fn entries_are_kept_by_file_and_line() {
    let mut listing = Listing::new();
    assert_eq!(listing.get(0, 1), None);
    listing.add(0, 1, 7);
    listing.add_no_code(0, 2, 8);
    listing.add(1, 1, 9);
    assert_eq!(listing.get(0, 1), Some(CodeRef::Ref(7)));
    assert_eq!(listing.get(0, 2), Some(CodeRef::NoCodeFor(8)));
    assert_eq!(listing.get(1, 1), Some(CodeRef::Ref(9)));
    assert_eq!(listing.get(1, 2), None);
    // a later entry for a line replaces an earlier one
    listing.add_no_code(0, 1, 3);
    assert_eq!(listing.get(0, 1), Some(CodeRef::NoCodeFor(3)));
    listing.add(0, 1, 4);
    assert_eq!(listing.get(0, 1), Some(CodeRef::Ref(4)));
}

#[test]
fn lines_of_a_statement_that_are_not_blank() {
    let text = "one\n\n  \t\ntwo ; x\n; three\nfour";
    assert_eq!(lines_of_statement(text, Span { start: 0, end: 3 }), vec![1]);
    assert_eq!(lines_of_statement(text, Span { start: 0, end: text.len() }), vec![1, 4, 5, 6]);
    assert_eq!(lines_of_statement(text, Span { start: 3, end: 10 }), vec![4]);
    assert_eq!(lines_of_statement(text, Span { start: 4, end: 9 }), Vec::<usize>::new());
    assert_eq!(lines_of_statement(text, Span { start: 17, end: 26 }), vec![5, 6]);
    assert_eq!(lines_of_statement(text, Span { start: 9, end: 9 }), Vec::<usize>::new());
    // a span that does not lie in the text has no lines
    assert_eq!(lines_of_statement(text, Span { start: 5, end: 4 }), Vec::<usize>::new());
    assert_eq!(lines_of_statement(text, Span { start: 0, end: 99 }), Vec::<usize>::new());
    // nor has one that starts inside a character
    let text = "é NOP";
    assert_eq!(lines_of_statement(text, Span { start: 1, end: 5 }), Vec::<usize>::new());
    assert_eq!(lines_of_statement(text, Span { start: 2, end: 5 }), vec![1]);
}

#[test]
fn a_statement_shows_its_bytes_on_its_last_line() {
    let text = "a:\n\n ; about it\n NOP";
    let mut listing = Listing::new();
    listing.add_statement(2, text, Span { start: 0, end: text.len() }, 5);
    assert_eq!(listing.get(2, 1), Some(CodeRef::NoCodeFor(5)));
    assert_eq!(listing.get(2, 2), None);
    assert_eq!(listing.get(2, 3), Some(CodeRef::NoCodeFor(5)));
    assert_eq!(listing.get(2, 4), Some(CodeRef::Ref(5)));
    assert_eq!(listing.get(2, 5), None);
    assert_eq!(listing.get(0, 4), None);
    listing.add_statement(2, text, Span { start: 1, end: 0 }, 6);
    assert_eq!(listing.get(2, 1), Some(CodeRef::NoCodeFor(5)));
}

#[test]
fn listing_of_a_file() {
    let text = "start: NOP\n  MOVE.L #1,D0 ; c  \n\nend:\n RTS\r\n\tDC.B 1,2,3";
    let (global, end) = assemble(&unit("t.s", text), true);
    assert_eq!(end, Ok(13));
    let rendered = global.listing.printable(&global.code_object, 0, "t.s", text).render();
    let expected = banner("t.s")
        + &row(0, "4E71 ", 1, "start: NOP")
        + &row(2, "203C 0000 0001 ", 2, "  MOVE.L #1,D0 ; c")
        + &row(8, "", 3, "")
        + &row(8, "", 4, "end:")
        + &row(8, "4E75 ", 5, " RTS")
        + &row(0xA, "0102 03", 6, "\tDC.B 1,2,3");
    assert_eq!(String::from_utf8(rendered).unwrap(), expected);
    assert_eq!(&expected[..68], format!("\n{} t.s ", "=".repeat(62)));
    assert_eq!(&expected[68..133], format!("{}\n\n", "=".repeat(63)));
}

#[test]
fn listing_without_entries() {
    let listing = Listing::new();
    let code = vec![(4u32, vec![1u8])];
    let rendered = listing.printable(&code, 0, "dir/long name.s", "x\n\ny\n").render();
    let expected =
        banner("dir/long name.s") + &row(0, "", 1, "x") + &row(0, "", 2, "") + &row(0, "", 3, "y");
    assert_eq!(String::from_utf8(rendered).unwrap(), expected);
    let rendered = listing.printable(&code, 0, "é", "").render();
    assert_eq!(String::from_utf8(rendered).unwrap(), banner("é"));
    let long = "p".repeat(140);
    let rendered = listing.printable(&code, 0, &long, "").render();
    assert_eq!(String::from_utf8(rendered).unwrap(), format!("\n {long} \n\n"));
}

#[test]
fn listing_follows_the_addresses_of_the_fragments() {
    let mut listing = Listing::new();
    listing.add(0, 1, 1);
    listing.add_no_code(0, 3, 0);
    listing.add(0, 4, 9);
    listing.add(1, 2, 0);
    let code = vec![(0x1000u32, vec![0xAAu8; 3]), (0xFFFF_FFFF, vec![1, 2, 3, 4, 5, 6, 7, 8, 9, 10, 11, 12, 13])];
    let rendered = listing.printable(&code, 0, "f", "a\nb\nc\nd\ne").render();
    let expected = banner("f")
        + &row(0xFFFF_FFFF, "0102 0304 0506 0708 090A 0B0C 0D", 1, "a")
        + &row(12, "", 2, "b")
        + &row(0x1000, "", 3, "c")
        + &row(0x1000, "", 4, "d")
        + &row(0x1000, "", 5, "e");
    assert_eq!(String::from_utf8(rendered).unwrap(), expected);
}

#[test]
fn included_files_are_listed_by_their_own_number() {
    let mut root = unit("root.s", " NOP\n INCLUDE sub.s\n RTS");
    root.includes.push(unit("sub.s", "x: DC.W 7"));
    let (global, _) = assemble(&root, true);
    assert_eq!(global.listing.get(0, 1), Some(CodeRef::Ref(1)));
    assert_eq!(global.listing.get(0, 2), None);
    assert_eq!(global.listing.get(0, 3), Some(CodeRef::Ref(2)));
    assert_eq!(global.listing.get(1, 1), Some(CodeRef::Ref(0)));
    let (global, _) = assemble(&root, false);
    assert_eq!(global.listing.get(0, 1), None);
}
