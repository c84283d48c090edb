use rustcooling::text::le_chars;
use rustcooling::text::{
    chars_of, eq_ignore_ascii_case, is_whitespace, parse_u64, split_after, split_lines,
    split_words, string_from_chars, trim_chars,
};

fn s(v: &[char]) -> String {
    v.iter().collect()
}

#[test]
fn whitespace_matches_std() {
    for c in ['a', ' ', '\t', '\n', '\r', '\u{a0}', '\u{3000}', '\u{2009}', 'x', '\u{200b}'] {
        assert_eq!(is_whitespace(c), c.is_whitespace());
    }
}

#[test]
fn trim_matches_std() {
    for text in ["  enabled \n", "", "   ", "\u{a0}x y\u{3000}", "abc"] {
        let chars = chars_of(text);
        assert_eq!(s(&trim_chars(&chars)), text.trim());
    }
}

#[test]
fn lines_match_std() {
    for text in ["a\nb", "a\n", "", "\n", "a\r\nb\r\n", "a\r", "\n\nx"] {
        let chars = chars_of(text);
        let got: Vec<String> = split_lines(&chars).iter().map(|l| s(l)).collect();
        let want: Vec<String> = text.lines().map(|l| l.to_string()).collect();
        assert_eq!(got, want, "{:?}", text);
    }
}

#[test]
fn words_match_std() {
    for text in ["cpu  1 2\t3", "  ", "", "a", " a  b "] {
        let chars = chars_of(text);
        let got: Vec<String> = split_words(&chars).iter().map(|w| s(w)).collect();
        let want: Vec<String> = text.split_whitespace().map(|w| w.to_string()).collect();
        assert_eq!(got, want);
    }
}

#[test]
fn numbers_parse_like_std() {
    for text in [
        "0", "42", "+7", "+", "", "-1", "12a", "18446744073709551615",
        "18446744073709551616", "99999999999999999999", "007",
    ] {
        let chars = chars_of(text);
        assert_eq!(parse_u64(&chars), text.parse::<u64>().ok(), "{:?}", text);
    }
}

#[test]
fn split_after_first_separator() {
    let chars = chars_of("cpu MHz : 3600.000: x");
    assert_eq!(s(&split_after(&chars, ':').unwrap()), " 3600.000: x");
    let none = chars_of("no separator");
    assert_eq!(split_after(&none, ':'), None);
}

#[test]
fn ascii_case_insensitive_equality() {
    let a = chars_of("K10Temp");
    let b = chars_of("k10temp");
    let c = chars_of("k10tem");
    assert!(eq_ignore_ascii_case(&a, &b));
    assert!(!eq_ignore_ascii_case(&a, &c));
    assert_eq!(string_from_chars(&a), "K10Temp");
}

#[test]
fn code_point_order_matches_string_order() {
    let pairs = [
        ("temp10_input", "temp1_input"),
        ("temp1_input", "temp10_input"),
        ("a", "a"),
        ("", "a"),
        ("a", ""),
        ("ab", "a"),
        ("é", "z"),
    ];
    for (a, b) in pairs {
        assert_eq!(le_chars(&chars_of(a), &chars_of(b)), a <= b, "{:?} {:?}", a, b);
    }
}
