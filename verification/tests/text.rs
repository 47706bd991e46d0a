use gitweb_release_downloader::text::{
    append_copies, contains_char, find_char, parse_unsigned, same_text, starts_with, to_chars,
    write_decimal, write_signed_decimal,
};

#[test]
fn decimal_notation() {
    assert_eq!(write_decimal(0), "0");
    assert_eq!(write_decimal(9), "9");
    assert_eq!(write_decimal(10), "10");
    assert_eq!(write_decimal(3600), "3600");
    assert_eq!(write_decimal(1234567890), "1234567890");
    assert_eq!(write_decimal(u64::MAX), u64::MAX.to_string());
}

#[test]
fn signed_decimal_notation() {
    assert_eq!(write_signed_decimal(0), "0");
    assert_eq!(write_signed_decimal(-1), "-1");
    assert_eq!(write_signed_decimal(-250), "-250");
    assert_eq!(write_signed_decimal(i64::MAX), i64::MAX.to_string());
    assert_eq!(write_signed_decimal(i64::MIN), i64::MIN.to_string());
}

#[test]
fn unsigned_numbers_are_read_as_std_reads_them() {
    let inputs = [
        "", "+", "-", "0", "00", "7", "+7", "-7", "++7", "+ 7", " 7", "7 ", "1_000", "12a", "0x10",
        "18446744073709551615", "18446744073709551616", "+18446744073709551615",
        "99999999999999999999999999", "000000000000000000000000000042", "\u{0663}", "1.5",
    ];
    for input in inputs {
        assert_eq!(parse_unsigned(input, u64::MAX), input.parse::<u64>().ok(), "{}", input);
    }
}

#[test]
fn unsigned_numbers_are_bounded() {
    assert_eq!(parse_unsigned("255", 255), Some(255));
    assert_eq!(parse_unsigned("256", 255), None);
    assert_eq!(parse_unsigned("1000", 255), None);
    assert_eq!(parse_unsigned("0", 0), Some(0));
    assert_eq!(parse_unsigned("5", 3), None);
}

#[test]
fn decimal_notation_reads_back() {
    for n in [0u64, 1, 9, 10, 99, 100, 12345, u64::MAX] {
        assert_eq!(parse_unsigned(write_decimal(n).as_str(), u64::MAX), Some(n));
    }
}

#[test]
fn prefixes() {
    assert!(starts_with("http://host", "http://"));
    assert!(!starts_with("https://host", "http://"));
    assert!(!starts_with("http:/", "http://"));
    assert!(starts_with("anything", ""));
    assert!(starts_with("\u{e9}t\u{e9}", "\u{e9}"));
}

#[test]
fn characters() {
    assert_eq!(to_chars("a\u{e9}b"), vec!['a', '\u{e9}', 'b']);
    assert_eq!(find_char("a:b:c", ':'), Some(1));
    assert_eq!(find_char("\u{e9}:", ':'), Some(1));
    assert_eq!(find_char("abc", ':'), None);
    assert!(contains_char("x?y", '?'));
    assert!(!contains_char("", '?'));
    assert!(same_text("v1", "v1"));
    assert!(!same_text("v1", "v10"));
}

#[test]
fn copies_are_appended_in_order() {
    let mut list = vec!["a".to_string()];
    append_copies(&mut list, &["b".to_string(), "c".to_string()]);
    assert_eq!(list, vec!["a", "b", "c"]);
}
