use poor_man_etl::text::{only_alphabetic, only_alphanumeric, parse_u64, same_text, u64_text};

#[test]
fn parse_u64_reads_digits_with_an_optional_plus() {
    assert_eq!(parse_u64("0"), Some(0));
    assert_eq!(parse_u64("1"), Some(1));
    assert_eq!(parse_u64("12345"), Some(12345));
    assert_eq!(parse_u64("+7"), Some(7));
    assert_eq!(parse_u64("007"), Some(7));
    assert_eq!(parse_u64("18446744073709551615"), Some(u64::MAX));
    assert_eq!(parse_u64("000000000000000000000000000001"), Some(1));
}

#[test]
fn parse_u64_refuses_everything_else() {
    assert_eq!(parse_u64(""), None);
    assert_eq!(parse_u64("+"), None);
    assert_eq!(parse_u64("-1"), None);
    assert_eq!(parse_u64("++1"), None);
    assert_eq!(parse_u64("1+"), None);
    assert_eq!(parse_u64(" 1"), None);
    assert_eq!(parse_u64("1 "), None);
    assert_eq!(parse_u64("1_000"), None);
    assert_eq!(parse_u64("12a"), None);
    assert_eq!(parse_u64("1.0"), None);
    assert_eq!(parse_u64("١٢"), None);
    assert_eq!(parse_u64("18446744073709551616"), None);
    assert_eq!(parse_u64("99999999999999999999999"), None);
}

#[test]
fn parse_u64_agrees_with_the_standard_library() {
    let samples = [
        "", "+", "-", "0", "+0", "-0", "1", "+1", "-1", "01", "10", "1e3", "0x10", " 5", "5 ", "٣",
        "18446744073709551614", "18446744073709551615", "18446744073709551616", "18446744073709551625",
        "28446744073709551615", "+18446744073709551615", "+18446744073709551616", "00018446744073709551615",
        "123456789012345678901234567890", "9", "99", "abc", "1a", "a1", "+-1", "1,000",
    ];
    for sample in samples {
        assert_eq!(parse_u64(sample), sample.parse::<u64>().ok(), "{:?}", sample);
    }
}

#[test]
fn u64_text_writes_decimal_digits() {
    assert_eq!(u64_text(0), "0");
    assert_eq!(u64_text(7), "7");
    assert_eq!(u64_text(10), "10");
    assert_eq!(u64_text(12345), "12345");
    assert_eq!(u64_text(u64::MAX), "18446744073709551615");
    for number in [0u64, 1, 9, 10, 99, 100, 101, 1000, 65535, 1 << 40, u64::MAX - 1, u64::MAX] {
        assert_eq!(u64_text(number), number.to_string());
        assert_eq!(parse_u64(&u64_text(number)), Some(number));
    }
}

#[test]
fn same_text_compares_character_by_character() {
    assert!(same_text("", ""));
    assert!(same_text("Year", "Year"));
    assert!(same_text("Größe", "Größe"));
    assert!(!same_text("Year", "year"));
    assert!(!same_text("Year", "Years"));
    assert!(!same_text("Years", "Year"));
    assert!(!same_text("", "a"));
}

#[test]
fn only_alphabetic_takes_letters_and_nothing_else() {
    assert!(only_alphabetic("Jam"));
    assert!(only_alphabetic("Käse"));
    assert!(only_alphabetic(""));
    assert!(!only_alphabetic("Trail Mix"));
    assert!(!only_alphabetic("Jam1"));
    assert!(!only_alphabetic("Jam!"));
}

#[test]
fn only_alphanumeric_takes_letters_and_numbers_and_nothing_else() {
    assert!(only_alphanumeric("12345"));
    assert!(only_alphanumeric("A12b"));
    assert!(only_alphanumeric(""));
    assert!(!only_alphanumeric("12-345"));
    assert!(!only_alphanumeric("12 345"));
    assert!(!only_alphanumeric("12.5"));
}
