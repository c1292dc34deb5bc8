use ptpsim::text::{
    int_error_message, is_whitespace, lines_of, nth_word, parse_u32, push_decimal,
    push_signed_decimal, str_eq, trimmed, IntErrorKind,
};

fn decimal(n: u64) -> String {
    let mut s = String::new();
    push_decimal(&mut s, n);
    s
}

#[test]
fn decimal_of_zero_and_large_values() {
    assert_eq!(decimal(0), "0");
    assert_eq!(decimal(7), "7");
    assert_eq!(decimal(1234567890), "1234567890");
    assert_eq!(decimal(u64::MAX), u64::MAX.to_string());
}

#[test]
fn decimal_appends_to_existing_text() {
    let mut s = String::from("id=");
    push_decimal(&mut s, 305);
    assert_eq!(s, "id=305");
}

#[test]
fn signed_decimal_renders_the_sign() {
    let mut s = String::new();
    push_signed_decimal(&mut s, -42);
    assert_eq!(s, "-42");
    let mut s = String::new();
    push_signed_decimal(&mut s, i32::MIN);
    assert_eq!(s, i32::MIN.to_string());
    let mut s = String::new();
    push_signed_decimal(&mut s, 17);
    assert_eq!(s, "17");
}

#[test]
fn whitespace_matches_std() {
    for c in ['\t', '\n', '\u{b}', '\u{c}', '\r', ' ', '\u{85}', '\u{a0}', '\u{1680}', '\u{2000}',
        '\u{200a}', '\u{2028}', '\u{2029}', '\u{202f}', '\u{205f}', '\u{3000}', 'a', '0', '\u{200b}',
        '\u{180e}', '_']
    {
        assert_eq!(is_whitespace(c), c.is_whitespace(), "{:?}", c);
    }
}

#[test]
fn trimmed_matches_std() {
    for s in ["  a b \n", "", "   ", "x", "\u{3000}y\u{a0}", "\t 12 \r\n"] {
        assert_eq!(trimmed(s), s.trim());
    }
}

#[test]
fn lines_match_std() {
    for s in ["a\r\nb\n\nc", "", "\n", "a\n", "x\r", "a\rb\n", "\r\n\r\n", "one line"] {
        let expected: Vec<String> = s.lines().map(|l| l.to_string()).collect();
        assert_eq!(lines_of(s), expected, "{:?}", s);
    }
}

#[test]
fn nth_word_matches_split_whitespace() {
    let s = "phc_ctl[46233.054]: clock time is 15747.599839000 or Wed Dec 31 23:22:27 1969";
    for i in 0..15 {
        assert_eq!(nth_word(s, i), s.split_whitespace().nth(i).map(|w| w.to_string()));
    }
    assert_eq!(nth_word("  ", 0), None);
}

#[test]
fn parse_u32_matches_std() {
    for s in ["0", "42", "+7", "+", "-1", "", " 1", "4294967295", "4294967296", "42949672950",
        "99999999999x", "12a", "a99999999999", "007", "1_000"]
    {
        let expected = s.parse::<u32>().map_err(|e| e.to_string());
        let got = parse_u32(s).map_err(int_error_message);
        assert_eq!(got, expected, "{:?}", s);
    }
}

#[test]
fn parse_u32_error_kinds() {
    assert_eq!(parse_u32(""), Err(IntErrorKind::Empty));
    assert_eq!(parse_u32("x"), Err(IntErrorKind::InvalidDigit));
    assert_eq!(parse_u32("5000000000"), Err(IntErrorKind::PosOverflow));
    assert_eq!(parse_u32("17"), Ok(17));
}

#[test]
fn str_eq_compares_text() {
    assert!(str_eq("node1", "node1"));
    assert!(!str_eq("node1", "node2"));
}
