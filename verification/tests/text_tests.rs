use mesh_thumbnail::text::{
    find_marker, has_prefix, has_suffix, match_marker, next_line, read_number, scan_run,
    seek_byte, stands_at, trim, ByteClass, Piece,
};

fn lines_of(text: &[u8]) -> Vec<Vec<u8>> {
    let mut out = Vec::new();
    let mut at = 0;
    while at < text.len() {
        let (end, next) = next_line(text, at);
        out.push(text[at..end].to_vec());
        at = next;
    }
    out
}

#[test]
fn lines_split_as_the_standard_library_splits_them() {
    let texts = [
        "",
        "\n",
        "a",
        "a\n",
        "a\nb",
        "a\r\nb\r\n",
        "a\rb\n",
        "a\r",
        "\r\n\r\n",
        "\n\n\na\n\n",
        "a\r\r\nb",
        "last line without end",
        "x\n\r",
    ];
    for text in texts {
        let expected: Vec<Vec<u8>> = text.lines().map(|l| l.as_bytes().to_vec()).collect();
        assert_eq!(lines_of(text.as_bytes()), expected, "{:?}", text);
    }
}

#[test]
fn white_space_is_trimmed_at_both_ends() {
    assert_eq!(trim(b"  a b \t\r\n"), b"a b");
    assert_eq!(trim(b"a"), b"a");
    assert_eq!(trim(b""), b"");
    assert_eq!(trim(b" \t "), b"");
    assert_eq!(trim(b"\x0b\x0cx\x0b"), b"x");
    assert_eq!(trim("\u{a0}x".as_bytes()), "\u{a0}x".as_bytes());
}

#[test]
fn prefixes_suffixes_and_places() {
    assert!(has_prefix(b"abc", b"ab"));
    assert!(has_prefix(b"abc", b""));
    assert!(has_prefix(b"abc", b"abc"));
    assert!(!has_prefix(b"abc", b"abcd"));
    assert!(!has_prefix(b"abc", b"bc"));
    assert!(has_suffix(b"abc", b"bc"));
    assert!(has_suffix(b"abc", b""));
    assert!(!has_suffix(b"abc", b"ab"));
    assert!(!has_suffix(b"bc", b"abc"));
    assert!(stands_at(b"abc", 1, b"bc"));
    assert!(stands_at(b"abc", 3, b""));
    assert!(!stands_at(b"abc", 4, b""));
    assert!(!stands_at(b"abc", 2, b"cd"));
    assert!(!stands_at(b"abc", usize::MAX, b"a"));
}

#[test]
fn runs_and_single_bytes() {
    assert_eq!(scan_run(b"123a", 0, ByteClass::Digit), 3);
    assert_eq!(scan_run(b"123a", 3, ByteClass::Digit), 3);
    assert_eq!(scan_run(b"123", 3, ByteClass::Digit), 3);
    assert_eq!(scan_run(b"1.2.x", 0, ByteClass::Decimal), 4);
    assert_eq!(scan_run(b"09afAFg", 0, ByteClass::Hex), 6);
    assert_eq!(scan_run(b" \t\n\x0b\x0c\r.", 0, ByteClass::Space), 6);
    assert_eq!(seek_byte(b"a=b=c", 0, b'='), 1);
    assert_eq!(seek_byte(b"a=b=c", 2, b'='), 3);
    assert_eq!(seek_byte(b"a=b=c", 4, b'='), 5);
    assert!(ByteClass::Digit.holds(b'0') && ByteClass::Digit.holds(b'9'));
    assert!(!ByteClass::Digit.holds(b'/') && !ByteClass::Digit.holds(b':'));
    assert!(!ByteClass::Hex.holds(b'g') && !ByteClass::Hex.holds(b'G') && !ByteClass::Hex.holds(b'@'));
}

#[test]
fn decimal_numbers() {
    assert_eq!(read_number(b"x123y", 1, 4), Some(123));
    assert_eq!(read_number(b"0", 0, 1), Some(0));
    assert_eq!(read_number(b"000042", 0, 6), Some(42));
    assert_eq!(read_number(b"", 0, 0), Some(0));
    let max = usize::MAX.to_string();
    assert_eq!(read_number(max.as_bytes(), 0, max.len()), Some(usize::MAX));
    let mut over = max.clone().into_bytes();
    let last = over.len() - 1;
    over[last] += 1;
    assert_eq!(read_number(&over, 0, over.len()), None);
    let longer = format!("{}0", max);
    assert_eq!(read_number(longer.as_bytes(), 0, longer.len()), None);
}

#[test]
fn marker_pieces_follow_one_another() {
    let marker = [Piece::Text(b"id="), Piece::Run(ByteClass::Digit), Piece::Text(b";")];
    assert_eq!(match_marker(b"id=12;", 0, &marker), Some(vec![3, 5, 6]));
    assert_eq!(match_marker(b"id=12", 0, &marker), None);
    assert_eq!(match_marker(b"id=;", 0, &marker), None);
    assert_eq!(match_marker(b" id=12;", 0, &marker), None);
    assert_eq!(match_marker(b" id=12;", 1, &marker), Some(vec![4, 6, 7]));
    let found = find_marker(b"id=; id=x; id=7;", &marker).unwrap();
    assert_eq!(found.at, 11);
    assert_eq!(found.ends, vec![14, 15, 16]);
    assert!(find_marker(b"id=; id=x;", &marker).is_none());
    let empty: [Piece; 0] = [];
    assert_eq!(find_marker(b"abc", &empty).unwrap().at, 0);
}

#[test]
fn counted_run_takes_exactly_so_many() {
    let marker = [Piece::Text(b"#"), Piece::Count(ByteClass::Hex, 2), Piece::Text(b"\"")];
    assert_eq!(match_marker(b"#a0\"", 0, &marker), Some(vec![1, 3, 4]));
    assert_eq!(match_marker(b"#a\"", 0, &marker), None);
    assert_eq!(match_marker(b"#a00\"", 0, &marker), None);
    let open = [Piece::Count(ByteClass::Digit, 2)];
    assert_eq!(match_marker(b"1234", 0, &open), Some(vec![2]));
    assert_eq!(match_marker(b"1", 0, &open), None);
}
