use pubky_cli::text::{format_u64, parse_u64};
use pubky_cli::util::parse_csv;

#[test]
fn parse_csv_trims_and_drops_empty_fields() {
    assert_eq!(parse_csv("a, b,,c "), vec!["a", "b", "c"]);
}

#[test]
fn parse_csv_of_blank_input_is_empty() {
    assert!(parse_csv("").is_empty());
    assert!(parse_csv(" , ,\t").is_empty());
}

#[test]
fn parse_csv_trims_unicode_white_space() {
    assert_eq!(
        parse_csv("\u{a0}relay.example:443\u{3000},\nhost:6881"),
        vec!["relay.example:443", "host:6881"]
    );
}

#[test]
fn parse_csv_keeps_inner_spaces() {
    assert_eq!(parse_csv(" a b ,c"), vec!["a b", "c"]);
}

#[test]
fn parse_u64_accepts_digits_and_plus() {
    assert_eq!(parse_u64("42"), Some(42));
    assert_eq!(parse_u64("+7"), Some(7));
    assert_eq!(parse_u64("007"), Some(7));
    assert_eq!(parse_u64("18446744073709551615"), Some(u64::MAX));
}

#[test]
fn parse_u64_rejects_what_std_rejects() {
    for bad in ["", "+", "-1", " 5", "5 ", "1_000", "18446744073709551616", "++1", "0x10"] {
        assert_eq!(parse_u64(bad), None, "{bad:?}");
        assert!(bad.parse::<u64>().is_err(), "{bad:?}");
    }
}

#[test]
fn parse_u64_agrees_with_std() {
    for s in ["0", "1500", "+1500", "99999999999999999999", "12a"] {
        assert_eq!(parse_u64(s), s.parse::<u64>().ok(), "{s:?}");
    }
}

#[test]
fn format_u64_writes_decimal() {
    assert_eq!(format_u64(0), "0");
    assert_eq!(format_u64(1234567890), "1234567890");
    assert_eq!(format_u64(u64::MAX), "18446744073709551615");
}

#[test]
fn format_then_parse_gives_the_number_back() {
    for n in [0u64, 9, 10, 255, 1_000_000, u64::MAX - 1, u64::MAX] {
        assert_eq!(parse_u64(&format_u64(n)), Some(n));
    }
}

#[test]
fn parse_csv_of_joined_fields_is_stable() {
    let fields = parse_csv(" a ,, b c ,\td ");
    assert_eq!(fields, vec!["a", "b c", "d"]);
    assert_eq!(parse_csv(&fields.join(",")), fields);
}

#[test]
fn parse_csv_of_two_lists_joined_by_comma() {
    for (a, b) in [(" x, y", "z ,"), ("", "a"), ("a,,", ""), ("\t", "\t")] {
        let mut both = parse_csv(a);
        both.extend(parse_csv(b));
        assert_eq!(parse_csv(&format!("{},{}", a, b)), both, "{a:?} {b:?}");
    }
}
