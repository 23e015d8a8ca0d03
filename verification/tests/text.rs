use vn_engine::text::{
    char_is_whitespace, char_utf8_len, chars_of, find_char, parse_u64, parse_usize, prefix_within,
    same_chars, split_at_each, split_once_at, string_of, subvec, trimmed,
};

fn s(v: &Vec<char>) -> String {
    string_of(v)
}

#[test]
fn characters_round_trip() {
    let text = "a“b”\u{3000}c";
    let v = chars_of(text);
    assert_eq!(v.len(), 6);
    assert_eq!(string_of(&v), text);
    assert_eq!(s(&subvec(&v, 1, 4)), "“b”");
    assert!(same_chars(&v, &chars_of(text)));
    assert!(!same_chars(&v, &chars_of("a“b”")));
}

#[test]
fn whitespace_is_that_of_the_standard_library() {
    let mut code: u32 = 0;
    while code < 0x11_0000 {
        if let Some(c) = char::from_u32(code) {
            assert_eq!(char_is_whitespace(c), c.is_whitespace(), "at {:x}", code);
            assert_eq!(char_utf8_len(c), c.len_utf8(), "at {:x}", code);
        }
        code += if code < 0x4000 { 1 } else { 0x101 };
    }
}

#[test]
fn trimming_is_that_of_the_standard_library() {
    for text in ["", " ", "  a b  ", "\t\r\nx\u{3000}", "x", " \u{a0}y z\u{2003}\u{85}", "\r"] {
        assert_eq!(s(&trimmed(&chars_of(text))), text.trim(), "for {:?}", text);
    }
}

#[test]
fn splitting_once_is_that_of_the_standard_library() {
    for (text, sep) in [("a b c", ' '), ("abc", ' '), (" x", ' '), ("x ", ' '), ("", ' '), ("a:b:c", ':'), ("说“好”", '“')] {
        let mine = split_once_at(&chars_of(text), sep).map(|(a, b)| (s(&a), s(&b)));
        let theirs = text.split_once(sep).map(|(a, b)| (a.to_string(), b.to_string()));
        assert_eq!(mine, theirs, "for {:?}", text);
        assert_eq!(find_char(&chars_of(text), sep), text.chars().position(|c| c == sep).unwrap_or(text.chars().count()));
    }
}

#[test]
fn splitting_at_each_is_that_of_the_standard_library() {
    for text in ["", "a", "a|b", "|", "a||b|", "||", "amy|z1|stand|smile|0|100"] {
        let mine: Vec<String> = split_at_each(&chars_of(text), '|').iter().map(s).collect();
        let theirs: Vec<String> = text.split('|').map(|p| p.to_string()).collect();
        assert_eq!(mine, theirs, "for {:?}", text);
    }
}

#[test]
fn numerals_are_those_of_the_standard_library() {
    for text in [
        "0", "1", "007", "+5", "+", "-1", "", " 1", "1 ", "12a", "++1", "18446744073709551615",
        "18446744073709551616", "99999999999999999999999", "4294967296", "１",
    ] {
        assert_eq!(parse_u64(&chars_of(text)), text.parse::<u64>().ok(), "for {:?}", text);
        assert_eq!(parse_usize(&chars_of(text)), text.parse::<usize>().ok(), "for {:?}", text);
    }
    assert_eq!(parse_u64(&chars_of("150")), Some(150));
}

#[test]
fn prefix_keeps_whole_characters_within_the_bytes() {
    assert_eq!(s(&prefix_within(&chars_of("abcdef"), 3)), "abc");
    assert_eq!(s(&prefix_within(&chars_of("abc"), 18)), "abc");
    assert_eq!(s(&prefix_within(&chars_of("你好世界"), 7)), "你好");
    assert_eq!(s(&prefix_within(&chars_of("你好世界"), 2)), "");
    assert_eq!(s(&prefix_within(&chars_of("a你b"), 4)), "a你");
    assert_eq!(s(&prefix_within(&chars_of("a😀b"), 4)), "a");
    assert_eq!(s(&prefix_within(&chars_of("a😀b"), 5)), "a😀");
}
