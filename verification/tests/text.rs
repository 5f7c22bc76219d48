use rsplayer::text::{
    chars_equal, compare_bytes, decimal_chars, eq_ignore_ascii_case_chars, find_char, format_decimal, from_chars,
    is_white_space_char, parse_u64_chars, push_chars, push_str, remove_all_chars, remove_char_chars, replace_all_chars,
    starts_with_chars, sub_chars, to_ascii_lowercase_char, to_chars, trim_chars, KeyOrder,
};

fn cs(s: &str) -> Vec<char> {
    s.chars().collect()
}

#[test]
fn chars_round_trip() {
    assert_eq!(to_chars("héllo"), vec!['h', 'é', 'l', 'l', 'o']);
    assert_eq!(from_chars(&cs("héllo")), "héllo");
    assert_eq!(from_chars(&[]), "");
}

#[test]
fn bytes_compare_lexicographically() {
    assert!(matches!(compare_bytes(b"abc", b"abd"), KeyOrder::Less));
    assert!(matches!(compare_bytes(b"ab", b"abc"), KeyOrder::Less));
    assert!(matches!(compare_bytes(b"abc", b"abc"), KeyOrder::Equal));
    assert!(matches!(compare_bytes(b"b", b"abc"), KeyOrder::Greater));
    assert!(matches!(compare_bytes(b"", b""), KeyOrder::Equal));
}

#[test]
fn white_space_and_trimming() {
    assert!(is_white_space_char(' '));
    assert!(is_white_space_char('\n'));
    assert!(is_white_space_char('\u{a0}'));
    assert!(!is_white_space_char('x'));
    assert_eq!(trim_chars(&cs("  a b \t\n")), cs("a b"));
    assert_eq!(trim_chars(&cs(" \n ")), Vec::<char>::new());
}

#[test]
fn searching_and_slicing() {
    assert_eq!(find_char(&cs("a:b:c"), ':'), Some(1));
    assert_eq!(find_char(&cs("abc"), ':'), None);
    assert!(starts_with_chars(&cs("http://x"), &cs("http")));
    assert!(!starts_with_chars(&cs("htt"), &cs("http")));
    assert!(chars_equal(&cs("ab"), &cs("ab")));
    assert!(!chars_equal(&cs("ab"), &cs("abc")));
    assert_eq!(sub_chars(&cs("abcdef"), 1, 4), cs("bcd"));
    assert_eq!(remove_char_chars(&cs("\"a\"b\""), '"'), cs("ab"));
    assert_eq!(remove_all_chars(&cs("xabyabz"), &cs("ab")), cs("xyz"));
    assert_eq!(remove_all_chars(&cs("aaa"), &cs("aa")), cs("a"));
}

#[test]
fn numbers_parse_and_print() {
    assert_eq!(parse_u64_chars(&cs("42")), Some(42));
    assert_eq!(parse_u64_chars(&cs("+7")), Some(7));
    assert_eq!(parse_u64_chars(&cs("007")), Some(7));
    assert_eq!(parse_u64_chars(&cs("18446744073709551615")), Some(u64::MAX));
    assert_eq!(parse_u64_chars(&cs("18446744073709551616")), None);
    assert_eq!(parse_u64_chars(&cs("")), None);
    assert_eq!(parse_u64_chars(&cs("+")), None);
    assert_eq!(parse_u64_chars(&cs("-1")), None);
    assert_eq!(parse_u64_chars(&cs("1 2")), None);
    assert_eq!(format_decimal(0), "0");
    assert_eq!(format_decimal(1234567890), "1234567890");
    assert_eq!(decimal_chars(u64::MAX), cs("18446744073709551615"));
}

#[test]
fn printed_numbers_parse_back() {
    for n in [0u64, 9, 10, 99, 65535, 4294967296, u64::MAX] {
        assert_eq!(parse_u64_chars(&cs(&format_decimal(n))), Some(n));
    }
}

#[test]
fn appending_text() {
    let mut s = "ab".to_string();
    push_str(&mut s, "cd");
    push_chars(&mut s, &['e', 'f']);
    assert_eq!(s, "abcdef");
}

#[test]
fn ascii_case() {
    assert_eq!(to_ascii_lowercase_char('A'), 'a');
    assert_eq!(to_ascii_lowercase_char('z'), 'z');
    assert_eq!(to_ascii_lowercase_char('É'), 'É');
    assert!(eq_ignore_ascii_case_chars(&cs("ApE"), &cs("ape")));
    assert!(!eq_ignore_ascii_case_chars(&cs("apé"), &cs("APÉ")));
    assert!(!eq_ignore_ascii_case_chars(&cs("ape"), &cs("apes")));
}

#[test]
fn replacing_every_occurrence() {
    assert_eq!(replace_all_chars(&cs("a{x}b{x}"), &cs("{x}"), &cs("12")), cs("a12b12"));
    assert_eq!(replace_all_chars(&cs("aaa"), &cs("aa"), &cs("b")), cs("ba"));
    assert_eq!(replace_all_chars(&cs("abc"), &cs("z"), &cs("y")), cs("abc"));
    assert_eq!(replace_all_chars(&cs("xx"), &cs("x"), &[]), Vec::<char>::new());
}
