//! Character-level rules, held against std.

use headroom_proxy::text::{
    contains_text, decimal_text, field_bounds, find_char, parse_u64, spells, text_eq, trim_bounds,
};

fn chars(s: &str) -> Vec<char> {
    s.chars().collect()
}

#[test]
fn trimming_agrees_with_std() {
    for s in [
        "",
        " ",
        " a ",
        "\t\u{a0}a b\u{3000}\n",
        "\u{200b}x\u{85}",
        "\u{1680}\u{2028}",
    ] {
        let c = chars(s);
        let (a, b) = trim_bounds(&c, 0, c.len());
        assert_eq!(c[a..b].iter().collect::<String>(), s.trim());
    }
}

#[test]
fn splitting_agrees_with_std() {
    for s in ["", ",", "a", "a,b", ",a,,b,"] {
        let c = chars(s);
        let parts: Vec<String> = field_bounds(&c, ',')
            .into_iter()
            .map(|(a, b)| c[a..b].iter().collect())
            .collect();
        let expected: Vec<String> = s.split(',').map(String::from).collect();
        assert_eq!(parts, expected);
    }
}

#[test]
fn characters_are_found_within_bounds() {
    let c = chars("a;b;c");
    assert_eq!(find_char(&c, 0, 5, ';'), 1);
    assert_eq!(find_char(&c, 2, 5, ';'), 3);
    assert_eq!(find_char(&c, 2, 3, ';'), 3);
    assert_eq!(find_char(&c, 4, 5, 'z'), 5);
}

#[test]
fn case_is_folded_for_ascii_only() {
    for (a, b) in [("aZ[", "Az["), ("@", "`"), ("é", "É"), ("ab", "abc"), ("k", "\u{212a}")] {
        let c = chars(a);
        assert_eq!(spells(&c, 0, c.len(), b), a.eq_ignore_ascii_case(b));
    }
}

#[test]
fn numbers_are_written_and_read_like_std() {
    for n in [0, 9, 10, 105, 1_000_000, u64::MAX] {
        assert_eq!(decimal_text(n), n.to_string());
        assert_eq!(parse_u64(&n.to_string()), Some(n));
    }
    for s in ["", "+", "+5", "-5", "007", "1 ", "18446744073709551616", "\u{665}"] {
        assert_eq!(parse_u64(s), s.parse::<u64>().ok());
    }
}

#[test]
fn texts_are_compared_and_searched_like_std() {
    for (a, b) in [("abcabd", "abd"), ("abc", ""), ("", "a"), ("aab", "ab"), ("é", "é")] {
        assert_eq!(contains_text(a, b), a.contains(b));
        assert_eq!(text_eq(a, b), a == b);
    }
}
