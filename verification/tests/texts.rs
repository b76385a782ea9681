use iai_callgrind_runner::text::{
    char_is_ascii_digit, char_is_ascii_whitespace, char_is_whitespace, chars_of, decimal_string,
    parse_u64, push_center, push_decimal, push_left, push_right, push_spaces,
    split_ascii_whitespace, str_eq, trim_str,
};

#[test]
fn whitespace_classes_agree_with_the_standard_library() {
    for n in 0..=0x11_0000u32 {
        if let Some(c) = char::from_u32(n) {
            assert_eq!(char_is_whitespace(c), c.is_whitespace(), "{:x}", n);
            assert_eq!(char_is_ascii_whitespace(c), c.is_ascii_whitespace(), "{:x}", n);
            assert_eq!(char_is_ascii_digit(c), c.is_ascii_digit(), "{:x}", n);
        }
    }
}

#[test]
fn trim_drops_whitespace_at_both_ends() {
    assert_eq!(trim_str("  a b \t\n"), "a b");
    assert_eq!(trim_str("a"), "a");
    assert_eq!(trim_str(""), "");
    assert_eq!(trim_str(" \u{3000}\u{a0} "), "");
    assert_eq!(trim_str("\u{2003}é \u{85}"), "é");
    assert_eq!(trim_str("\u{200b}x"), "\u{200b}x");
    for s in ["", " ", "x ", " x", "\tfn=a b\r\n", "\u{b}\u{c}12 3\u{1680}"] {
        assert_eq!(trim_str(s), s.trim());
    }
}

#[test]
fn split_gives_the_runs_between_ascii_whitespace() {
    assert_eq!(split_ascii_whitespace("1 22  333"), vec!["1", "22", "333"]);
    assert_eq!(split_ascii_whitespace("  a\tb\nc\r\u{c}d "), vec!["a", "b", "c", "d"]);
    assert_eq!(split_ascii_whitespace(""), Vec::<&str>::new());
    assert_eq!(split_ascii_whitespace(" \t "), Vec::<&str>::new());
    assert_eq!(split_ascii_whitespace("a\u{a0}b\u{b}c"), vec!["a\u{a0}b\u{b}c"]);
    for s in ["x", " x", "x ", "é ü\tß", "0x10 1 10 5"] {
        let expected: Vec<&str> = s.split_ascii_whitespace().collect();
        assert_eq!(split_ascii_whitespace(s), expected);
    }
}

#[test]
fn counters_parse_as_the_standard_library_parses_them() {
    for s in [
        "0",
        "1",
        "+1",
        "0001",
        "18446744073709551615",
        "18446744073709551616",
        "+18446744073709551615",
        "000018446744073709551615",
        "99999999999999999999999999",
        "",
        "+",
        "-",
        "-1",
        "+-1",
        "1 ",
        "a",
        "1a",
        "１",
        "1e5",
    ] {
        assert_eq!(parse_u64(s), s.parse::<u64>().ok(), "{s}");
    }
    assert_eq!(parse_u64("42"), Some(42));
    assert_eq!(parse_u64("+"), None);
}

#[test]
fn decimal_text_of_numbers() {
    assert_eq!(decimal_string(0), "0");
    assert_eq!(decimal_string(7), "7");
    assert_eq!(decimal_string(10), "10");
    assert_eq!(decimal_string(1234567890), "1234567890");
    assert_eq!(decimal_string(u64::MAX), "18446744073709551615");
    let mut out = String::from("n=");
    push_decimal(&mut out, u128::MAX);
    assert_eq!(out, format!("n={}", u128::MAX));
}

#[test]
fn text_in_columns() {
    let mut out = String::new();
    push_left(&mut out, "ab", 5);
    out.push('|');
    push_right(&mut out, "ab", 5);
    out.push('|');
    push_center(&mut out, "ab", 5);
    out.push('|');
    push_center(&mut out, "ab", 6);
    out.push('|');
    push_left(&mut out, "abcdef", 3);
    push_right(&mut out, "abcdef", 3);
    push_center(&mut out, "abcdef", 3);
    out.push('|');
    push_spaces(&mut out, 2);
    out.push('|');
    push_spaces(&mut out, 0);
    assert_eq!(out, "ab   |   ab| ab  |  ab  |abcdefabcdefabcdef|  |");
    let mut wide = String::new();
    push_right(&mut wide, "éé", 4);
    push_center(&mut wide, "é", 4);
    assert_eq!(wide, format!("{:>4}{:^4}", "éé", "é"));
}

#[test]
fn characters_and_equality() {
    assert_eq!(chars_of("aé\u{1F600}"), vec!['a', 'é', '\u{1F600}']);
    assert_eq!(chars_of(""), Vec::<char>::new());
    assert!(str_eq("", ""));
    assert!(str_eq("abc", "abc"));
    assert!(!str_eq("abc", "abd"));
    assert!(!str_eq("abc", "ab"));
    assert!(!str_eq("ab", "abc"));
}
