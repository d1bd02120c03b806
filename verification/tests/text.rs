use std::num::IntErrorKind;
use vault_identity::text::{
    characters, decimal_text, find_char, is_white_space, parse_integer, prefix, same_text, suffix,
    trim, IntParseError,
};

#[test]
fn white_space_is_that_of_unicode() {
    for n in 0u32..=0x10FFFF {
        if let Some(c) = char::from_u32(n) {
            assert_eq!(is_white_space(c), c.is_whitespace(), "{:x}", n);
        }
    }
}

#[test]
fn trimming_takes_white_space_from_both_ends() {
    assert_eq!(trim("  a b\t\n"), "a b");
    assert_eq!(trim("\u{3000}\u{a0}x\u{2003}"), "x");
    assert_eq!(trim(""), "");
    assert_eq!(trim(" \r\n "), "");
    assert_eq!(trim("plain"), "plain");
    assert_eq!(trim(" \u{1F600} é "), "\u{1F600} é");
}

#[test]
fn trimming_agrees_with_std() {
    let samples = ["", " ", "a", " a", "a ", "\u{85}a\u{85}", "\u{200b}a", "a\u{feff} ", "é é "];
    for s in samples {
        assert_eq!(trim(s), s.trim());
    }
}

#[test]
fn texts_are_the_same_by_their_characters() {
    assert!(same_text("", ""));
    assert!(same_text("true", "true"));
    assert!(!same_text("true", "True"));
    assert!(!same_text("tru", "true"));
    assert!(!same_text("true", "tru"));
    assert!(same_text("é\u{1F600}", "é\u{1F600}"));
}

#[test]
fn a_character_is_found_where_it_first_stands() {
    assert_eq!(find_char("a=b=c", '='), Some(1));
    assert_eq!(find_char("é;x", ';'), Some(1));
    assert_eq!(find_char("abc", '='), None);
    assert_eq!(find_char("", '='), None);
}

#[test]
fn texts_are_cut_between_characters() {
    assert_eq!(prefix("éa;b", 2), "éa");
    assert_eq!(suffix("éa;b", 3), "b");
    assert_eq!(prefix("ab", 0), "");
    assert_eq!(suffix("ab", 2), "");
    assert_eq!(characters("é=\u{1F600}"), vec!['é', '=', '\u{1F600}']);
}

fn kind(e: IntParseError) -> IntErrorKind {
    match e {
        IntParseError::Empty => IntErrorKind::Empty,
        IntParseError::InvalidDigit => IntErrorKind::InvalidDigit,
        IntParseError::PosOverflow => IntErrorKind::PosOverflow,
        IntParseError::NegOverflow => IntErrorKind::NegOverflow,
    }
}

const NUMBERS: [&str; 38] = [
    "", "0", "-0", "+0", "7", "-7", "+7", "00012", "-00012", "2147483647", "2147483648",
    "-2147483648", "-2147483649", "9223372036854775807", "9223372036854775808",
    "-9223372036854775808", "-9223372036854775809", "99999999999999999999999", "-",
    "+", "--1", "+-1", "1-", "1 ", " 1", "1.0", "1e3", "a", "-a", "12a", "99999999999999999999x",
    "-99999999999999999999x", "\u{0661}", "é", "-99999999999999999999", "+2147483648",
    "2147483647x", "-2147483648x",
];

#[test]
fn integers_are_read_as_std_reads_i32() {
    for s in NUMBERS {
        match (parse_integer(s, i32::MIN as i64, i32::MAX as i64), s.parse::<i32>()) {
            (Ok(n), Ok(m)) => assert_eq!(n, m as i64, "{}", s),
            (Err(e), Err(f)) => {
                assert_eq!(&kind(e), f.kind(), "{}", s);
                assert_eq!(e.message(), f.to_string(), "{}", s);
            },
            (ours, theirs) => panic!("{:?}: {:?} but {:?}", s, ours, theirs),
        }
    }
}

#[test]
fn integers_are_read_as_std_reads_i64() {
    for s in NUMBERS {
        match (parse_integer(s, i64::MIN, i64::MAX), s.parse::<i64>()) {
            (Ok(n), Ok(m)) => assert_eq!(n, m, "{}", s),
            (Err(e), Err(f)) => assert_eq!(&kind(e), f.kind(), "{}", s),
            (ours, theirs) => panic!("{:?}: {:?} but {:?}", s, ours, theirs),
        }
    }
}

#[test]
fn every_kind_of_misreading_has_its_message() {
    assert_eq!(parse_integer("", -8, 7).unwrap_err().message(), "cannot parse integer from empty string");
    assert_eq!(parse_integer("x", -8, 7).unwrap_err().message(), "invalid digit found in string");
    assert_eq!(parse_integer("8", -8, 7).unwrap_err().message(), "number too large to fit in target type");
    assert_eq!(parse_integer("-9", -8, 7).unwrap_err().message(), "number too small to fit in target type");
}

#[test]
fn integers_are_written_as_std_writes_them() {
    for n in [0, 1, -1, 9, 10, 99, 100, -100, 7200, 2592000, i64::MAX, i64::MIN, i64::MIN + 1] {
        assert_eq!(decimal_text(n), n.to_string());
        assert_eq!(parse_integer(decimal_text(n).as_str(), i64::MIN, i64::MAX), Ok(n));
    }
}
