use height_exporter::text::{collect_chars, split_commas, str_eq, strip_quote_chars, trim_chars};

fn chars(s: &str) -> Vec<char> {
    s.chars().collect()
}

fn string_of(cs: &[char]) -> String {
    cs.iter().collect()
}

#[test]
fn collect_chars_round_trip() {
    assert_eq!(collect_chars("hello"), chars("hello"));
    assert_eq!(collect_chars(""), chars(""));
}

#[test]
fn trim_removes_surrounding_whitespace() {
    assert_eq!(string_of(&trim_chars(&chars("  42\n"))), "42");
    assert_eq!(string_of(&trim_chars(&chars("\t x y \r\n"))), "x y");
    assert_eq!(string_of(&trim_chars(&chars("abc"))), "abc");
    assert_eq!(string_of(&trim_chars(&chars("   "))), "");
    assert_eq!(string_of(&trim_chars(&chars(""))), "");
}

#[test]
fn trim_matches_std_trim() {
    let samples = [
        "  42\n",
        "\u{a0}42",
        "\u{a0}42\u{2003}",
        "\u{85}\u{1680}x\u{3000}",
        "\u{2028}\u{2029}\u{202f}\u{205f}",
        "\u{200b}42",  // zero-width space is not whitespace
        "inner\u{a0}kept",
        "",
        " \t\r\n\u{b}\u{c}",
    ];
    for s in samples {
        assert_eq!(
            string_of(&trim_chars(&chars(s))),
            s.trim(),
            "trim sample {:?}",
            s
        );
    }
}

#[test]
fn strip_quotes_removes_every_quote() {
    assert_eq!(string_of(&strip_quote_chars(&chars("\"99\""))), "99");
    assert_eq!(string_of(&strip_quote_chars(&chars("no quotes"))), "no quotes");
    assert_eq!(string_of(&strip_quote_chars(&chars("\"\"\""))), "");
}

#[test]
fn split_commas_pieces() {
    assert_eq!(split_commas("a,b"), vec!["a".to_string(), "b".to_string()]);
    assert_eq!(split_commas(""), vec!["".to_string()]);
    assert_eq!(split_commas("abc"), vec!["abc".to_string()]);
    assert_eq!(
        split_commas("a,,b"),
        vec!["a".to_string(), "".to_string(), "b".to_string()]
    );
    assert_eq!(split_commas("x,"), vec!["x".to_string(), "".to_string()]);
}

#[test]
fn str_eq_compares_contents() {
    assert!(str_eq("abc", "abc"));
    assert!(!str_eq("abc", "abd"));
    assert!(!str_eq("abc", "abcd"));
    assert!(str_eq("", ""));
}
