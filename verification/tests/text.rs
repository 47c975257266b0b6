use matter_example::number::{decimal, hex, parse_number, NumberError};
use matter_example::text::{
    chars_of, eq_ignore_ascii_case, find, index_of, is_whitespace, join, precedes, same_text, split,
    stands_at, string_of, substring, trim,
};

#[test]
fn whitespace_is_that_of_the_standard_library() {
    for n in 0..=0x10ffffu32 {
        if let Some(c) = char::from_u32(n) {
            assert_eq!(is_whitespace(c), c.is_whitespace(), "{n:x}");
        }
    }
}

#[test]
fn trimming_matches_the_standard_library() {
    for s in ["", " ", "a", " a ", "\t a b \n", "\u{2003}x\u{3000}", "  \r\n"] {
        assert_eq!(trim(s), s.trim());
        assert_eq!(trim(&trim(s)), s.trim());
    }
}

#[test]
fn case_is_ignored_in_ascii_only() {
    assert!(eq_ignore_ascii_case("LiGht", "lIgHT"));
    assert!(!eq_ignore_ascii_case("light", "lights"));
    assert!(!eq_ignore_ascii_case("Ä", "ä"));
    assert!(!eq_ignore_ascii_case("@", "`"));
}

#[test]
fn texts_are_compared_and_cut() {
    let v = chars_of("añb.c.");
    assert_eq!(v.len(), 6);
    assert_eq!(string_of(&v), "añb.c.");
    assert_eq!(substring(&v, 1, 3), "ñb");
    assert!(same_text("añ", "añ"));
    assert!(!same_text("añ", "an"));
    assert!(stands_at(&v, &chars_of("b."), 2));
    assert!(!stands_at(&v, &chars_of("b."), 5));
    assert_eq!(find(&v, &chars_of(".")), Some(3));
    assert_eq!(find(&v, &chars_of("x")), None);
    assert_eq!(index_of(&v, '.', 4), 5);
    assert_eq!(index_of(&v, 'x', 0), 6);
    assert_eq!(split(&v, '.'), vec!["añb".to_string(), "c".to_string(), "".to_string()]);
    assert_eq!(split(&[], '.'), vec!["".to_string()]);
    assert_eq!(join(&vec!["a".to_string(), "b".to_string()], ", "), "a, b");
    assert_eq!(join(&Vec::new(), ", "), "");
}

#[test]
fn texts_are_ordered_as_in_the_standard_library() {
    let all = ["", "a", "aa", "ab", "b", "é", "\u{ffff}", "\u{10000}"];
    for a in all {
        for b in all {
            assert_eq!(precedes(a, b), a < b);
        }
    }
}

#[test]
fn numbers_are_written() {
    assert_eq!(decimal(0), "0");
    assert_eq!(decimal(u64::MAX), "18446744073709551615");
    assert_eq!(hex(0x1f), "001F");
    assert_eq!(hex(0x12345), "12345");
}

#[test]
fn numbers_are_read() {
    assert_eq!(parse_number("+42", 10, u64::MAX), Ok(42));
    assert_eq!(parse_number("fF", 16, 255), Ok(255));
    assert_eq!(parse_number("", 10, 255), Err(NumberError::Empty));
    assert_eq!(parse_number("+", 10, 255), Err(NumberError::InvalidDigit));
    assert_eq!(parse_number("-1", 10, 255), Err(NumberError::InvalidDigit));
    assert_eq!(parse_number("256", 10, 255), Err(NumberError::TooLarge));
    for n in [0u64, 7, 10, 4097, u64::MAX] {
        assert_eq!(parse_number(&decimal(n), 10, u64::MAX), Ok(n));
    }
}

#[test]
fn number_errors_are_those_of_the_standard_library() {
    assert_eq!(NumberError::Empty.message(), "".parse::<u32>().unwrap_err().to_string());
    assert_eq!(NumberError::InvalidDigit.message(), "x".parse::<u32>().unwrap_err().to_string());
    assert_eq!(NumberError::TooLarge.message(), "256".parse::<u8>().unwrap_err().to_string());
}
