use storage_node::text::{
    chars_of, contains_text, decimal_text, join_text, number_error_text, parse_number, same_bytes,
    same_text, split_text, string_of, strip_0x, trim_text, NumberError,
};

#[test]
fn characters_round_trip() {
    let chars = chars_of("h\u{e9}llo");
    assert_eq!(chars.len(), 5);
    assert_eq!(string_of(&chars), "h\u{e9}llo");
}

#[test]
fn equality_of_texts_and_bytes() {
    assert!(same_text("abc", "abc"));
    assert!(!same_text("abc", "abd"));
    assert!(same_bytes(&[1, 2], &[1, 2]));
    assert!(!same_bytes(&[1, 2], &[1, 3]));
    assert!(!same_bytes(&[1, 2], &[1]));
    assert_eq!(join_text("ab", "cd"), "abcd");
}

#[test]
fn numbers_are_written_in_decimal() {
    assert_eq!(decimal_text(0), "0");
    assert_eq!(decimal_text(7), "7");
    assert_eq!(decimal_text(1_048_576), "1048576");
    assert_eq!(decimal_text(u64::MAX), u64::MAX.to_string());
}

#[test]
fn numbers_are_read_as_the_standard_library_does() {
    for s in ["0", "42", "+5", "007", "18446744073709551615"] {
        assert_eq!(parse_number(s, 10).unwrap(), s.parse::<u64>().unwrap());
    }
    assert_eq!(parse_number("ff", 16).unwrap(), 255);
    assert_eq!(parse_number("FfFf", 16).unwrap(), 65535);
    assert_eq!(parse_number("", 10).unwrap_err(), NumberError::Empty);
    assert_eq!(parse_number("+", 10).unwrap_err(), NumberError::InvalidDigit);
    assert_eq!(parse_number("-1", 10).unwrap_err(), NumberError::InvalidDigit);
    assert_eq!(parse_number("1a", 10).unwrap_err(), NumberError::InvalidDigit);
    assert_eq!(parse_number("18446744073709551616", 10).unwrap_err(), NumberError::Overflow);
    assert_eq!(parse_number("18446744073709551616x", 10).unwrap_err(), NumberError::Overflow);
}

#[test]
fn number_errors_are_worded_as_by_the_standard_library() {
    let empty = "".parse::<u64>().unwrap_err().to_string();
    let digit = "x".parse::<u64>().unwrap_err().to_string();
    let large = "99999999999999999999".parse::<u64>().unwrap_err().to_string();
    assert_eq!(number_error_text(NumberError::Empty), empty);
    assert_eq!(number_error_text(NumberError::InvalidDigit), digit);
    assert_eq!(number_error_text(NumberError::Overflow), large);
}

#[test]
fn white_space_is_trimmed_at_both_ends() {
    for s in ["", "  ", " a b ", "\t\r\nx\u{3000}", "\u{a0}y\u{2009}", "plain"] {
        assert_eq!(trim_text(s), s.trim());
    }
}

#[test]
fn white_space_is_what_unicode_calls_so() {
    for code in 0u32..0x11_0000 {
        if let Some(c) = char::from_u32(code) {
            let text = c.to_string();
            if c.is_whitespace() {
                assert_eq!(trim_text(&text), "");
            } else if code < 0x4000 {
                assert_eq!(trim_text(&text), text);
            }
        }
    }
}

#[test]
fn prefixes_are_stripped_as_often_as_they_stand() {
    assert_eq!(strip_0x("0xab"), "ab");
    assert_eq!(strip_0x("0x0xab"), "ab");
    assert_eq!(strip_0x("0Xab"), "0Xab");
    assert_eq!(strip_0x("ab"), "ab");
    assert_eq!(strip_0x("0x"), "");
}

#[test]
fn needles_are_found() {
    assert!(contains_text("nonce too low", "too"));
    assert!(contains_text("abc", ""));
    assert!(contains_text("abc", "abc"));
    assert!(!contains_text("abc", "abcd"));
    assert!(!contains_text("aab", "ba"));
    assert!(contains_text("aab", "ab"));
}

#[test]
fn texts_are_cut_at_separators() {
    for s in ["", ",", "a,b", "a,,b,", "host:80"] {
        let expected: Vec<&str> = s.split(',').collect();
        assert_eq!(split_text(s, ','), expected);
    }
}

#[test]
fn decimal_numbers_round_trip() {
    for n in [0, 9, 10, 99, 100, 1_048_576, u64::MAX] {
        assert_eq!(parse_number(&decimal_text(n), 10), Ok(n));
    }
}
