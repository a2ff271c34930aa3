use m68kasm::arena::FileArena;
use m68kasm::args::Args;
use m68kasm::bytes::{push_all, push_be16, push_be32};
use m68kasm::hex::{hex_digit, push_hex, push_hex_bytes};
use m68kasm::symbols::{FailingMap, NonFailingMap, SymbolMap, SymbolTable};
use m68kasm::text::{
    blank, find_line_end, push_decimal, push_hex_number, push_left_aligned, push_repeat,
    push_right_aligned, push_slice, push_str, trim_end,
};
use m68kasm::utils::{IsLast, PrintIteratorSep};

#[test]
fn symbols_are_defined_once() {
    let mut table = SymbolTable::new();
    assert_eq!(table.get("a"), None);
    assert!(!table.contains_key("a"));
    assert!(table.insert("a".to_string(), 1));
    assert!(table.insert("b".to_string(), 2));
    assert!(table.insert("".to_string(), 3));
    assert!(!table.insert("a".to_string(), 9));
    assert_eq!(table.get("a"), Some(1));
    assert_eq!(table.find("b"), Some(2));
    assert_eq!(table.get(""), Some(3));
    assert_eq!(table.get("A"), None);
    assert!(table.contains_key("b"));
    assert_eq!(table.get_failing("c"), None);
}

#[test]
fn lookups_fail_or_give_zero() {
    let mut table = SymbolTable::new();
    assert!(table.insert("a".to_string(), 7));
    let lenient = NonFailingMap(&table);
    assert_eq!(lenient.get("a"), Some(7));
    assert_eq!(lenient.get("b"), Some(0));
    assert_eq!(lenient.get_failing("a"), Some(7));
    assert_eq!(lenient.get_failing("b"), None);
    let strict = FailingMap(&lenient);
    assert_eq!(strict.get("a"), Some(7));
    assert_eq!(strict.get("b"), None);
    assert_eq!(NonFailingMap(&strict).get("b"), Some(0));
}

#[test]
fn files_keep_their_order() {
    let mut arena = FileArena::new();
    assert_eq!(arena.len(), 0);
    assert_eq!(arena.add_contents("a.s".to_string(), "one".to_string()), 0);
    assert_eq!(arena.add_contents("b.s".to_string(), "two".to_string()), 1);
    assert_eq!(arena.add_contents("a.s".to_string(), "three".to_string()), 2);
    assert_eq!(arena.len(), 3);
    let files = arena.into_files();
    let pairs: Vec<(&str, &str)> =
        files.iter().map(|f| (f.file.as_str(), f.contents.as_str())).collect();
    assert_eq!(pairs, vec![("a.s", "one"), ("b.s", "two"), ("a.s", "three")]);
    assert!(FileArena::new().into_files().is_empty());
    // more files than the first chunk of the arena holds
    let mut arena = FileArena::new();
    for i in 0..5000 {
        assert_eq!(arena.add_contents(format!("{i}.s"), String::new()), i);
    }
    assert_eq!(arena.len(), 5000);
    let files = arena.into_files();
    assert!(files.iter().enumerate().all(|(i, f)| f.file == format!("{i}.s")));
}

#[test]
fn listing_path_of_the_arguments() {
    let args = |out: &str, listing: Option<Option<&str>>| Args {
        input_file: "in.s".to_string(),
        out: out.to_string(),
        listing: listing.map(|l| l.map(|p| p.to_string())),
    };
    let config = args("out.h68", None).config();
    assert_eq!((config.input_file.as_str(), config.out.as_str()), ("in.s", "out.h68"));
    assert_eq!(config.listing, None);
    assert_eq!(args("out.h68", Some(Some("my.txt"))).config().listing, Some("my.txt".to_string()));
    assert_eq!(args("out.h68", Some(None)).config().listing, Some("out.lis".to_string()));
    assert_eq!(args("dir.d/out", Some(None)).config().listing, Some("dir.d/out.lis".to_string()));
    assert_eq!(args("a.b.c", Some(None)).config().listing, Some("a.b.lis".to_string()));
    assert_eq!(args(".hidden", Some(None)).config().listing, Some(".hidden.lis".to_string()));
}

#[test]
fn items_know_whether_they_are_the_last() {
    let items = vec!['a', 'b', 'c'];
    let mut walk = IsLast::new(&items);
    assert_eq!(walk.next(), Some((&'a', false)));
    assert_eq!(walk.next(), Some((&'b', false)));
    assert_eq!(walk.next(), Some((&'c', true)));
    assert_eq!(walk.next(), None);
    assert_eq!(walk.next(), None);
    let one = vec![1];
    assert_eq!(IsLast::new(&one).next(), Some((&1, true)));
    let none: Vec<u8> = vec![];
    assert_eq!(IsLast::new(&none).next(), None);
}

#[test]
fn items_are_joined() {
    let join = |items: &[&str], sep: &str| {
        let items = items.iter().map(|i| i.as_bytes().to_vec()).collect();
        String::from_utf8(PrintIteratorSep::new(items, sep.as_bytes().to_vec()).render()).unwrap()
    };
    assert_eq!(join(&[], ", "), "");
    assert_eq!(join(&["a"], ", "), "a");
    assert_eq!(join(&["a", "b"], ", "), "a, b");
    assert_eq!(join(&["a", "", "c"], "-"), "a--c");
    assert_eq!(join(&["a", "b", "c"], ""), "abc");
}

#[test]
fn numbers_in_hexadecimal() {
    let hex = |n: u128, width: usize| {
        let mut out = String::from("x");
        push_hex(&mut out, n, width);
        out
    };
    assert_eq!(hex(0, 0), "x0");
    assert_eq!(hex(0, 1), "x0");
    assert_eq!(hex(0, 4), "x0000");
    assert_eq!(hex(0xAB, 2), "xAB");
    assert_eq!(hex(0xAB, 1), "xAB");
    assert_eq!(hex(0xF, 2), "x0F");
    assert_eq!(hex(0x1234, 8), "x00001234");
    assert_eq!(hex(0x123, 2), "x123");
    assert_eq!(hex(u128::MAX, 2), format!("x{:X}", u128::MAX));
    let digits: String = (0..16).map(hex_digit).collect();
    assert_eq!(digits, "0123456789ABCDEF");
    let mut out = String::new();
    push_hex_bytes(&mut out, &[0x00, 0x9A, 0xFF, 0x10], 1, 3);
    assert_eq!(out, "9AFF");
    let mut out = vec![b'x'];
    push_hex_number(&mut out, 0xBEEF, 8);
    push_hex_number(&mut out, 0x0A, 1);
    assert_eq!(out, b"x0000BEEFA".to_vec());
}

#[test]
fn text_helpers() {
    let mut out = vec![b'>'];
    push_decimal(&mut out, 0);
    push_decimal(&mut out, 907);
    push_repeat(&mut out, b'-', 3);
    push_repeat(&mut out, b'-', 0);
    push_slice(&mut out, b"abcdef", 2, 4);
    push_str(&mut out, "é");
    push_right_aligned(&mut out, &b"12".to_vec(), 5);
    push_right_aligned(&mut out, &b"123456".to_vec(), 5);
    push_left_aligned(&mut out, &b"ab".to_vec(), 4);
    push_left_aligned(&mut out, &b"abcde".to_vec(), 4);
    assert_eq!(out, ">0907---cdé   12123456ab  abcde".as_bytes().to_vec());
    let mut out = Vec::new();
    push_decimal(&mut out, usize::MAX);
    assert_eq!(out, usize::MAX.to_string().into_bytes());
    let text = b"ab \t\ncd\n\nef  ";
    assert_eq!(find_line_end(text, 0), 4);
    assert_eq!(find_line_end(text, 4), 4);
    assert_eq!(find_line_end(text, 5), 7);
    assert_eq!(find_line_end(text, 8), 8);
    assert_eq!(find_line_end(text, 9), 13);
    assert_eq!(find_line_end(text, 13), 13);
    assert_eq!(trim_end(text, 0, 4), 2);
    assert_eq!(trim_end(text, 2, 4), 2);
    assert_eq!(trim_end(text, 9, 13), 11);
    assert_eq!(trim_end(text, 5, 7), 7);
    for b in [b' ', b'\t', b'\n', 0x0b, 0x0c, b'\r'] {
        assert!(blank(b));
    }
    for b in [b'a', 0, 0x08, 0x0e, 0x1f, 0x21, 0xa0] {
        assert!(!blank(b));
    }
}

#[test]
fn bytes_most_significant_first() {
    let mut out = vec![9];
    push_be16(&mut out, 0x1234);
    push_be32(&mut out, 0x89ABCDEF);
    push_all(&mut out, &vec![1, 2]);
    push_be16(&mut out, 0x00FF);
    assert_eq!(out, vec![9, 0x12, 0x34, 0x89, 0xAB, 0xCD, 0xEF, 1, 2, 0x00, 0xFF]);
}

#[test]
fn listing_path_that_is_handed_in() {
    let args = |listing: Option<Option<&str>>| Args {
        input_file: "in.s".to_string(),
        out: "out.h68".to_string(),
        listing: listing.map(|l| l.map(|p| p.to_string())),
    };
    assert_eq!(args(None).config_with("x.lis".to_string()).listing, None);
    assert_eq!(
        args(Some(Some("my.txt"))).config_with("x.lis".to_string()).listing,
        Some("my.txt".to_string())
    );
    assert_eq!(args(Some(None)).config_with("x.lis".to_string()).listing, Some("x.lis".to_string()));
}
