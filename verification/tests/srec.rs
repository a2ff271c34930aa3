use m68kasm::srec::{checksum, Record, SRec, SliceMaybeOwned, SliceRange};

fn lines_of(code: &Vec<(u32, Vec<u8>)>) -> Vec<String> {
    SRec::new(code).to_string().lines().map(|l| l.to_string()).collect()
}

/// The kind of a line and its bytes: count, address, data and checksum.
fn decode(line: &str) -> (char, Vec<u8>) {
    assert_eq!(&line[0..1], "S");
    let kind = line.chars().nth(1).unwrap();
    let bytes = (2..line.len())
        .step_by(2)
        .map(|i| u8::from_str_radix(&line[i..i + 2], 16).unwrap())
        .collect();
    (kind, bytes)
}

fn data_len(line: &str) -> usize {
    let (kind, bytes) = decode(line);
    let address = match kind {
        '2' => 3,
        '3' => 4,
        _ => 2,
    };
    bytes.len() - 1 - address - 1
}

#[test]
fn header_and_terminator() {
    assert_eq!(Record::S0.to_string(), "S004000020DB");
    assert_eq!(Record::S9.to_string(), "S9030000FC");
    assert_eq!(lines_of(&vec![]), vec!["S004000020DB", "S9030000FC"]);
    assert_eq!(SRec::new(&vec![]).to_string(), "S004000020DB\nS9030000FC\n");
}

#[test]
fn record_kind_goes_by_the_address() {
    let kind = |addr: u32| match Record::new(addr, SliceMaybeOwned::owned(vec![1])) {
        Record::S1(a, _) => (1, a as u32),
        Record::S2(a, _) => (2, a),
        Record::S3(a, _) => (3, a),
        _ => (0, 0),
    };
    assert_eq!(kind(0), (1, 0));
    assert_eq!(kind(0xFFFF), (1, 0xFFFF));
    assert_eq!(kind(0x1_0000), (2, 0x1_0000));
    assert_eq!(kind(0xFF_FFFF), (2, 0xFF_FFFF));
    assert_eq!(kind(0x100_0000), (3, 0x100_0000));
    assert_eq!(kind(0xFFFF_FFFF), (3, 0xFFFF_FFFF));
}

#[test]
fn record_lines() {
    let record = |addr: u32, data: &[u8]| Record::new(addr, SliceMaybeOwned::borrowed(data)).to_string();
    assert_eq!(record(0, &[0x4E, 0x71]), "S10500004E713B");
    assert_eq!(record(0x1000, &[0x4E, 0x75]), "S10510004E7527");
    assert_eq!(record(0x012345, &[1, 2, 3]), "S20701234501020389");
    assert_eq!(record(0x01234567, &[0xFF]), "S30601234567FF2A");
    assert_eq!(record(0, &[]), "S1030000FC");
    assert_eq!(record(0xFFFF_FFFF, &[]), "S305FFFFFFFFFE");
    // a 24-bit address is written with its low 24 bits
    let data = [7u8];
    assert_eq!(
        Record::S2(0xAB01_2345, SliceMaybeOwned::borrowed(&data)).to_string(),
        Record::S2(0x0001_2345, SliceMaybeOwned::borrowed(&data)).to_string()
    );
    let mut out = String::from("> ");
    Record::S9.push_text(&mut out);
    assert_eq!(out, "> S9030000FC");
}

#[test]
fn checksum_complements_the_sum() {
    let data: Vec<u8> = (0..=255).collect();
    let code = SliceMaybeOwned::borrowed(&data);
    // 256 + 2 + 1 + 0x12 + 0x34 + sum(0..=255) = 32_969 = 0x80C9
    assert_eq!(checksum(&code, 2, 0x1234), 0xFF - 0xC9);
    assert_eq!(checksum(&code, 3, 0x1234), 0xFF - 0xCA);
    assert_eq!(checksum(&code, 4, 0x1234), 0xFF - 0xCB);
    assert_eq!(checksum(&SliceMaybeOwned::owned(vec![]), 2, 0), 0xFC);
    assert_eq!(checksum(&SliceMaybeOwned::owned(vec![0xFC]), 2, 0), 0xFF);
    assert_eq!(checksum(&SliceMaybeOwned::owned(vec![0xFD]), 2, 0), 0xFE);
    assert_eq!(checksum(&SliceMaybeOwned::owned(vec![]), 4, 0xFFFF_FFFF), 0xFE);
    assert_eq!(code.sum_mod_256(), 0x80);
}

#[test]
fn every_record_checks_out() {
    let mut code: Vec<(u32, Vec<u8>)> = Vec::new();
    code.push((0xFF00, (0..=255).collect()));
    code.push((0x1_0000, (0..100).map(|i| (i * 7) as u8).collect()));
    code.push((0xFF_FFC0, (0..200).map(|i| (i * 13) as u8).collect()));
    code.push((0xFFFF_FF00, vec![0xFF; 256]));
    let lines = lines_of(&code);
    assert!(lines.len() > 10);
    for line in &lines {
        let (_, bytes) = decode(line);
        assert_eq!(bytes[0] as usize, bytes.len() - 1, "{line}");
        let sum: u32 = bytes.iter().map(|b| *b as u32).sum();
        assert_eq!(sum % 256, 0xFF, "{line}");
    }
}

#[test]
fn records_hold_no_more_than_their_kind_allows() {
    let mut code: Vec<(u32, Vec<u8>)> = Vec::new();
    code.push((0, vec![1; 1000]));
    code.push((0x2_0000, vec![2; 1000]));
    code.push((0x200_0000, vec![3; 1000]));
    let lines = lines_of(&code);
    let mut seen = [0usize; 4];
    for line in &lines[1..lines.len() - 1] {
        let (kind, _) = decode(line);
        let limit = match kind {
            '1' => 70,
            '2' => 68,
            '3' => 66,
            other => panic!("{other}"),
        };
        assert!(data_len(line) <= limit, "{line}");
        seen[kind.to_digit(10).unwrap() as usize] += 1;
    }
    // 1000 bytes make 14 full records of 70 and one of 20, and so on
    assert_eq!(seen, [0, 15, 15, 16]);
    assert_eq!(data_len(&lines[1]), 70);
    assert_eq!(data_len(&lines[15]), 20);
    assert_eq!(data_len(&lines[16]), 68);
    assert_eq!(data_len(&lines[30]), 48);
    assert_eq!(data_len(&lines[31]), 66);
    assert_eq!(data_len(&lines[46]), 10);
}

#[test]
fn short_data_makes_one_short_record() {
    for (addr, len) in [(0u32, 32usize), (0x1_0000, 31), (0x100_0000, 30)] {
        let parts = Record::new(addr, SliceMaybeOwned::owned(vec![0; len])).split_max_len();
        assert_eq!(parts.len(), 1);
        assert_eq!(data_len(&parts[0].to_string()), len);
    }
}

#[test]
fn long_records_are_cut() {
    let data: Vec<u8> = (0..150).collect();
    let parts = Record::new(0, SliceMaybeOwned::borrowed(&data)).split_max_len();
    let shapes: Vec<(u32, Vec<u8>)> = parts
        .iter()
        .map(|r| match r {
            Record::S1(a, d) => (*a as u32, d.to_vec()),
            other => panic!("{}", other.to_string()),
        })
        .collect();
    assert_eq!(
        shapes,
        vec![(0, data[..70].to_vec()), (70, data[70..140].to_vec()), (140, data[140..].to_vec())]
    );
    // exactly the limit is one record
    assert_eq!(Record::new(0, SliceMaybeOwned::owned(vec![0; 70])).split_max_len().len(), 1);
    assert_eq!(Record::new(0, SliceMaybeOwned::owned(vec![0; 71])).split_max_len().len(), 2);
    assert_eq!(Record::new(0x1_0000, SliceMaybeOwned::owned(vec![0; 68])).split_max_len().len(), 1);
    assert_eq!(Record::new(0x1_0000, SliceMaybeOwned::owned(vec![0; 69])).split_max_len().len(), 2);
    assert_eq!(Record::new(0x100_0000, SliceMaybeOwned::owned(vec![0; 66])).split_max_len().len(), 1);
    assert_eq!(Record::new(0x100_0000, SliceMaybeOwned::owned(vec![0; 67])).split_max_len().len(), 2);
    assert_eq!(Record::S0.split_max_len().len(), 1);
    assert_eq!(Record::S9.split_max_len()[0].to_string(), "S9030000FC");
}

#[test]
fn a_cut_record_takes_the_kind_of_its_address() {
    let parts = Record::new(0xFFF0, SliceMaybeOwned::owned(vec![0xAA; 100])).split_max_len();
    let lines: Vec<String> = parts.iter().map(|r| r.to_string()).collect();
    assert_eq!(lines.len(), 2);
    assert_eq!(&lines[0][..8], "S149FFF0");
    assert_eq!(data_len(&lines[0]), 70);
    assert_eq!(&lines[1][..10], "S222010036");
    assert_eq!(data_len(&lines[1]), 30);
    let parts = Record::new(0xFF_FFF0, SliceMaybeOwned::owned(vec![0xAA; 100])).split_max_len();
    let lines: Vec<String> = parts.iter().map(|r| r.to_string()).collect();
    assert_eq!(&lines[0][..10], "S248FFFFF0");
    assert_eq!(&lines[1][..12], "S32501000034");
}

#[test]
fn a_cut_record_keeps_its_kind_where_its_address_fits() {
    let parts = Record::S2(0x10, SliceMaybeOwned::owned(vec![0; 100])).split_max_len();
    let lines: Vec<String> = parts.iter().map(|r| r.to_string()).collect();
    assert_eq!(lines.len(), 2);
    assert_eq!(&lines[0][..10], "S248000010");
    assert_eq!(&lines[1][..10], "S224000054");
    let parts = Record::S3(0x10, SliceMaybeOwned::owned(vec![0; 100])).split_max_len();
    let lines: Vec<String> = parts.iter().map(|r| r.to_string()).collect();
    assert_eq!(&lines[0][..12], "S34700000010");
    assert_eq!(&lines[1][..12], "S32700000052");
}

#[test]
fn fragments_that_touch_are_joined() {
    let code = vec![
        (0u32, vec![1u8, 2]),
        (2, vec![3]),
        (3, vec![]),
        (3, vec![4]),
        (10, vec![5]),
        (9, vec![6]),
        (10, vec![7]),
        (0x20, vec![]),
    ];
    assert_eq!(
        lines_of(&code),
        vec![
            "S004000020DB",
            "S107000001020304EE",
            "S104000A05EC",
            "S10500090607E4",
            "S1030020DC",
            "S9030000FC",
        ]
    );
}

#[test]
fn code_up_to_the_end_of_the_address_space() {
    let lines = lines_of(&vec![(0xFFFF_FFFE, vec![0x4E, 0x71])]);
    // 7 + 0xFF + 0xFF + 0xFF + 0xFE + 0x4E + 0x71 = 0x4C1
    assert_eq!(lines[1], "S307FFFFFFFE4E713E");
}

#[test]
fn slices_are_split() {
    let data = vec![1u8, 2, 3, 4, 5];
    let whole = SliceMaybeOwned::owned(data.clone());
    assert_eq!(whole.len(), 5);
    let (a, b) = whole.split(2);
    assert_eq!((a.len(), b.len()), (2, 3));
    assert_eq!(a.to_vec(), vec![1, 2]);
    assert_eq!(b.to_vec(), vec![3, 4, 5]);
    let (c, e) = b.split(3);
    assert_eq!((c.len(), e.len()), (3, 0));
    assert_eq!(c.sum_mod_256(), 12);
    let (f, g) = c.split(0);
    assert_eq!((f.len(), g.len()), (0, 3));
    let mut out = String::new();
    g.push_hex(&mut out);
    assert_eq!(out, "030405");
}

#[test]
fn ranges() {
    let r = SliceRange::new(3, 7);
    assert_eq!((r.start(), r.end()), (3, 7));
    assert_eq!(r.offset_start(0), 3);
    assert_eq!(r.offset_start(4), 7);
    assert!(r.contains(3) && r.contains(6));
    assert!(!r.contains(2) && !r.contains(7));
    let empty = SliceRange::new(5, 2);
    assert_eq!((empty.start(), empty.end()), (5, 5));
    assert!(!empty.contains(5));
}
