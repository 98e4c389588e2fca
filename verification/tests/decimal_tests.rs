use web_crawler::decimal::parse_i32;

#[test]
fn reads_plain_digits() {
    assert_eq!(parse_i32("0"), Some(0));
    assert_eq!(parse_i32("42"), Some(42));
    assert_eq!(parse_i32("007"), Some(7));
}

#[test]
fn reads_a_leading_sign() {
    assert_eq!(parse_i32("-7"), Some(-7));
    assert_eq!(parse_i32("+5"), Some(5));
    assert_eq!(parse_i32("-0"), Some(0));
}

#[test]
fn reads_the_extremes() {
    assert_eq!(parse_i32("2147483647"), Some(i32::MAX));
    assert_eq!(parse_i32("-2147483648"), Some(i32::MIN));
    assert_eq!(parse_i32("+2147483647"), Some(i32::MAX));
}

#[test]
fn refuses_what_does_not_fit() {
    assert_eq!(parse_i32("2147483648"), None);
    assert_eq!(parse_i32("-2147483649"), None);
    assert_eq!(parse_i32("99999999999999999999999999"), None);
    assert_eq!(parse_i32("-99999999999999999999999999"), None);
}

#[test]
fn refuses_what_is_off_the_grammar() {
    assert_eq!(parse_i32(""), None);
    assert_eq!(parse_i32("-"), None);
    assert_eq!(parse_i32("+"), None);
    assert_eq!(parse_i32("12a"), None);
    assert_eq!(parse_i32("a12"), None);
    assert_eq!(parse_i32(" 1"), None);
    assert_eq!(parse_i32("1 "), None);
    assert_eq!(parse_i32("--1"), None);
    assert_eq!(parse_i32("+-1"), None);
    assert_eq!(parse_i32("1_000"), None);
    assert_eq!(parse_i32("1.0"), None);
    assert_eq!(parse_i32("\u{0663}"), None);
    assert_eq!(parse_i32("99999999999999999999x"), None);
}

#[test]
fn agrees_with_the_standard_parser() {
    let samples = [
        "0", "1", "-1", "+1", "10", "0010", "2147483647", "2147483648", "-2147483648",
        "-2147483649", "4294967296", "", "+", "-", "x", "1x", "x1", "1-", "1+1", " 5", "5\n",
        "000000000000000000000000000005", "-000000000000000000000002147483648", "٣", "12３",
    ];
    for s in samples {
        assert_eq!(parse_i32(s), s.parse::<i32>().ok(), "on {:?}", s);
    }
}
