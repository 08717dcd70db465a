use digital_wellbeing::decimal::{parse_decimal, push_decimal};

fn written(n: u128) -> String {
    let mut out: Vec<char> = vec!['x'];
    push_decimal(&mut out, n);
    out.into_iter().collect()
}

fn read(text: &str) -> Option<u64> {
    let chars: Vec<char> = text.chars().collect();
    parse_decimal(&chars, 0, chars.len())
}

#[test]
fn push_decimal_appends_the_digits() {
    assert_eq!(written(0), "x0");
    assert_eq!(written(7), "x7");
    assert_eq!(written(10), "x10");
    assert_eq!(written(909), "x909");
    assert_eq!(written(18446744073709551615), "x18446744073709551615");
    assert_eq!(written(u128::MAX), "x340282366920938463463374607431768211455");
}

#[test]
fn parse_decimal_reads_digits() {
    assert_eq!(read("0"), Some(0));
    assert_eq!(read("42"), Some(42));
    assert_eq!(read("0042"), Some(42));
    assert_eq!(read("18446744073709551615"), Some(u64::MAX));
}

#[test]
fn parse_decimal_refuses_what_is_no_number() {
    assert_eq!(read(""), None);
    assert_eq!(read("-1"), None);
    assert_eq!(read("+1"), None);
    assert_eq!(read("1a"), None);
    assert_eq!(read(" 1"), None);
    assert_eq!(read("١٢"), None);
}

#[test]
fn parse_decimal_refuses_what_does_not_fit() {
    assert_eq!(read("18446744073709551616"), None);
    assert_eq!(read("184467440737095516150"), None);
    assert_eq!(read("000018446744073709551615"), Some(u64::MAX));
}

#[test]
fn parse_decimal_reads_a_part_of_the_line() {
    let chars: Vec<char> = "ab:123\n".chars().collect();
    assert_eq!(parse_decimal(&chars, 3, 6), Some(123));
    assert_eq!(parse_decimal(&chars, 3, 5), Some(12));
    assert_eq!(parse_decimal(&chars, 3, 3), None);
    assert_eq!(parse_decimal(&chars, 2, 6), None);
}
