use hero_init::text::{
    chars_eq, chars_of, char_is_whitespace, join_path, lines_chars, parse_unsigned_chars,
    push_decimal, push_joined, split_chars, string_of, trim_chars,
};

fn chars(s: &str) -> Vec<char> {
    s.chars().collect()
}

fn strings(v: Vec<Vec<char>>) -> Vec<String> {
    v.into_iter().map(|c| c.into_iter().collect()).collect()
}

#[test]
fn decimal_reads_back() {
    for n in [0u32, 7, 10, 99, 100, 65535, 4294967295] {
        let mut s = String::new();
        push_decimal(&mut s, n);
        assert_eq!(s, n.to_string());
        assert_eq!(parse_unsigned_chars(&chars(&s), u32::MAX as u64), Some(n as u64));
    }
}

#[test]
fn parsing_follows_std() {
    for text in ["0", "+12", "007", "4294967295", "", "+", "-1", "1 ", "4294967296", "1a"] {
        let ours = parse_unsigned_chars(&chars(text), u32::MAX as u64);
        let std = text.parse::<u32>().ok().map(|v| v as u64);
        assert_eq!(ours, std, "{:?}", text);
    }
    assert_eq!(parse_unsigned_chars(&chars("18446744073709551615"), u64::MAX), Some(u64::MAX));
    assert_eq!(parse_unsigned_chars(&chars("18446744073709551616"), u64::MAX), None);
}

#[test]
fn trimming_follows_std() {
    for text in ["  a b \n", "\u{a0}x\u{3000}", "", "   ", "x"] {
        assert_eq!(string_of(&trim_chars(&chars(text))), text.trim());
    }
    for c in ['\t', ' ', '\u{85}', '\u{2028}', 'a', '\u{200b}'] {
        assert_eq!(char_is_whitespace(c), c.is_whitespace());
    }
}

#[test]
fn splitting_and_lines_follow_std() {
    for text in ["a:b::c", "", ":", "abc"] {
        let expected: Vec<String> = text.split(':').map(String::from).collect();
        assert_eq!(strings(split_chars(&chars(text), ':')), expected);
    }
    for text in ["a\nb\n", "a\r\nb", "", "\n", "a\n\nb\r", "x\r\n\r\n"] {
        let expected: Vec<String> = text.lines().map(String::from).collect();
        assert_eq!(strings(lines_chars(&chars(text))), expected, "{:?}", text);
    }
}

#[test]
fn joining_and_paths() {
    let mut out = String::from(">");
    push_joined(&mut out, &vec!["a".to_string(), "b".to_string(), "c".to_string()], ", ");
    assert_eq!(out, ">a, b, c");
    let mut empty = String::new();
    push_joined(&mut empty, &vec![], ",");
    assert_eq!(empty, "");
    assert_eq!(join_path("/home/x", ".ssh"), "/home/x/.ssh");
    assert_eq!(join_path("/home/x/", ".ssh"), "/home/x/.ssh");
    assert_eq!(join_path("", ".ssh"), ".ssh");
    assert!(chars_eq(&chars_of("abc"), &chars("abc")));
    assert!(!chars_eq(&chars_of("abc"), &chars("abd")));
}
