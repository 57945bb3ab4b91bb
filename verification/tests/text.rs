use coccinella_agent_sdk::text::{chars_of, join_with, to_decimal, trim, trim_end_matching, white_space};

#[test]
fn trim_matches_std_trim() {
    for s in ["  Just a plain answer.  ", "", "   ", "x", "\t\n a b \r\n", "\u{3000}wide\u{a0}", "\u{85}x\u{2028}", "a\u{200b}"] {
        assert_eq!(trim(s), s.trim(), "input {s:?}");
    }
}

#[test]
fn white_space_matches_char_is_whitespace() {
    for u in 0u32..0x3100 {
        if let Some(c) = char::from_u32(u) {
            assert_eq!(white_space(c), c.is_whitespace(), "char {u:#x}");
        }
    }
}

#[test]
fn trim_end_matching_drops_only_trailing() {
    assert_eq!(trim_end_matching("a//b//", '/'), "a//b");
    assert_eq!(trim_end_matching("////", '/'), "");
    assert_eq!(trim_end_matching("abc", '/'), "abc");
}

#[test]
fn decimal_rendering() {
    assert_eq!(to_decimal(0), "0");
    assert_eq!(to_decimal(7), "7");
    assert_eq!(to_decimal(10), "10");
    assert_eq!(to_decimal(1234), "1234");
    assert_eq!(to_decimal(u64::MAX), u64::MAX.to_string());
}

#[test]
fn join_lines() {
    let v: Vec<String> = vec![];
    assert_eq!(join_with(&v, "\n"), "");
    assert_eq!(join_with(&vec!["a".to_string()], "\n"), "a");
    assert_eq!(join_with(&vec!["a".to_string(), "b".to_string(), "c".to_string()], ", "), "a, b, c");
}

#[test]
fn chars_in_order() {
    assert_eq!(chars_of("héllo"), vec!['h', 'é', 'l', 'l', 'o']);
}
