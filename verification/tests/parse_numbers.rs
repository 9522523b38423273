use height_exporter::numbers::parse_i64_chars;

fn chars(s: &str) -> Vec<char> {
    s.chars().collect()
}

#[test]
fn hex_parse_basic() {
    assert_eq!(parse_i64_chars(&chars("10"), 16), Some(16));
    assert_eq!(parse_i64_chars(&chars("ff"), 16), Some(255));
    assert_eq!(parse_i64_chars(&chars("FF"), 16), Some(255));
    assert_eq!(parse_i64_chars(&chars("0"), 16), Some(0));
    assert_eq!(parse_i64_chars(&chars("3e8"), 16), Some(1000));
}

#[test]
fn hex_parse_signs() {
    assert_eq!(parse_i64_chars(&chars("+10"), 16), Some(16));
    assert_eq!(parse_i64_chars(&chars("-10"), 16), Some(-16));
}

#[test]
fn hex_parse_failures() {
    assert_eq!(parse_i64_chars(&chars(""), 16), None);
    assert_eq!(parse_i64_chars(&chars("+"), 16), None);
    assert_eq!(parse_i64_chars(&chars("-"), 16), None);
    assert_eq!(parse_i64_chars(&chars("zz"), 16), None);
    assert_eq!(parse_i64_chars(&chars("1 0"), 16), None);
    assert_eq!(parse_i64_chars(&chars("0x10"), 16), None);
}

#[test]
fn decimal_parse_basic() {
    assert_eq!(parse_i64_chars(&chars("42"), 10), Some(42));
    assert_eq!(parse_i64_chars(&chars("+42"), 10), Some(42));
    assert_eq!(parse_i64_chars(&chars("-42"), 10), Some(-42));
    assert_eq!(parse_i64_chars(&chars("007"), 10), Some(7));
}

#[test]
fn decimal_parse_bounds() {
    assert_eq!(
        parse_i64_chars(&chars("9223372036854775807"), 10),
        Some(i64::MAX)
    );
    assert_eq!(parse_i64_chars(&chars("9223372036854775808"), 10), None);
    assert_eq!(
        parse_i64_chars(&chars("-9223372036854775808"), 10),
        Some(i64::MIN)
    );
    assert_eq!(parse_i64_chars(&chars("-9223372036854775809"), 10), None);
    assert_eq!(parse_i64_chars(&chars("99999999999999999999999"), 10), None);
}

#[test]
fn hex_parse_bounds() {
    assert_eq!(
        parse_i64_chars(&chars("7fffffffffffffff"), 16),
        Some(i64::MAX)
    );
    assert_eq!(parse_i64_chars(&chars("8000000000000000"), 16), None);
    assert_eq!(
        parse_i64_chars(&chars("-8000000000000000"), 16),
        Some(i64::MIN)
    );
}

#[test]
fn parse_agrees_with_std() {
    let samples = [
        "", "0", "1", "-1", "+1", "ff", "FF", "g", " 1", "1 ", "00", "-0", "+0",
        "7fffffffffffffff", "8000000000000000", "-8000000000000000", "123456789abcdef",
        "deadbeef", "-deadbeef", "++1", "--1", "+-1",
    ];
    for s in samples {
        assert_eq!(
            parse_i64_chars(&chars(s), 16),
            i64::from_str_radix(s, 16).ok(),
            "hex sample {:?}",
            s
        );
        assert_eq!(
            parse_i64_chars(&chars(s), 10),
            i64::from_str_radix(s, 10).ok(),
            "dec sample {:?}",
            s
        );
    }
}
