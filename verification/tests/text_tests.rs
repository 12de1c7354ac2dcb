use tidemark::domain::text::{
    chars_of, i64_to_string, line_is_blank, lines, parse_i64, parse_u32, split_chars, str_eq,
    str_less, text_contains, trim_str, u32_to_string, u64_to_string,
};

#[test]
fn trim_drops_white_space_at_both_ends() {
    assert_eq!(trim_str("  v1 \t\n"), "v1");
    assert_eq!(trim_str("a b"), "a b");
    assert_eq!(trim_str(" \u{a0}\u{3000}x\u{2028}"), "x");
    assert_eq!(trim_str("   "), "");
    assert_eq!(trim_str(""), "");
}

#[test]
fn trim_agrees_with_std() {
    for sample in ["", " ", "x", " x", "x ", "\r\nab c\u{85}", "\u{1680}q\u{205f}", "\u{200b}z "] {
        assert_eq!(trim_str(sample), sample.trim());
    }
}

#[test]
fn decimal_rendering_is_exact() {
    assert_eq!(u64_to_string(0), "0");
    assert_eq!(u64_to_string(7), "7");
    assert_eq!(u64_to_string(10), "10");
    assert_eq!(u64_to_string(u64::MAX), "18446744073709551615");
    assert_eq!(u32_to_string(4294967295), "4294967295");
    assert_eq!(i64_to_string(0), "0");
    assert_eq!(i64_to_string(-1), "-1");
    assert_eq!(i64_to_string(1704067200), "1704067200");
    assert_eq!(i64_to_string(i64::MIN), "-9223372036854775808");
    assert_eq!(i64_to_string(i64::MAX), "9223372036854775807");
}

#[test]
fn strings_compare_as_std_does() {
    let samples = ["", "a", "ab", "b", "B", "v1", "v10", "v2", "é", "z", "\u{10000}"];
    for a in samples {
        for b in samples {
            assert_eq!(str_less(a, b), a < b, "{a:?} < {b:?}");
            assert_eq!(str_eq(a, b), a == b, "{a:?} == {b:?}");
        }
    }
}

#[test]
fn split_keeps_empty_pieces() {
    let pieces = split_chars(&chars_of("a\t\tb\t"), '\t');
    assert_eq!(pieces, vec!["a", "", "b", ""]);
    assert_eq!(split_chars(&chars_of(""), '\t'), vec![""]);
    assert_eq!(split_chars(&chars_of("abc"), '\t'), vec!["abc"]);
}

#[test]
fn lines_agree_with_std() {
    for sample in ["", "a", "a\n", "a\nb", "a\r\nb\r\n", "\n", "a\n\nb", "foo\nbar\n\r\nbaz\r", "x\r"] {
        let expected: Vec<String> = sample.lines().map(|l| l.to_string()).collect();
        assert_eq!(lines(sample), expected, "{sample:?}");
    }
}

#[test]
fn blank_lines_are_told() {
    assert!(line_is_blank(""));
    assert!(line_is_blank(" \t "));
    assert!(!line_is_blank(" x "));
}

#[test]
fn integers_parse_as_std_does() {
    for sample in [
        "", "0", "7", "+7", "-7", "007", "4294967295", "4294967296", "-0", "+", "-", "1a", " 1",
        "9223372036854775807", "9223372036854775808", "-9223372036854775808",
        "-9223372036854775809", "99999999999999999999999", "+-1", "١",
    ] {
        assert_eq!(parse_u32(sample), sample.parse::<u32>().ok(), "{sample:?}");
        assert_eq!(parse_i64(sample), sample.parse::<i64>().ok(), "{sample:?}");
    }
}

#[test]
fn substrings_are_found() {
    assert!(text_contains("unit foo.timer not loaded.", "not loaded"));
    assert!(text_contains("not found", "not found"));
    assert!(!text_contains("not foun", "not found"));
    assert!(text_contains("abc", ""));
    assert!(!text_contains("", "a"));
}
