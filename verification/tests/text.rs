use urgent_restart::strings::{chars_of, decode_text, string_of};
use urgent_restart::text::{
    contains, is_whitespace, join, matches_at, same_chars, split_lines, split_whitespace,
};

fn cs(s: &str) -> Vec<char> {
    s.chars().collect()
}

fn strings(rows: Vec<Vec<char>>) -> Vec<String> {
    rows.iter().map(|row| row.iter().collect()).collect()
}

fn lines_of(s: &str) -> Vec<String> {
    strings(split_lines(&cs(s)))
}

fn tokens_of(s: &str) -> Vec<String> {
    strings(split_whitespace(&cs(s)))
}

#[test]
fn chars_of_gives_each_character() {
    assert_eq!(chars_of("a\u{e9}\u{8d8a}"), vec!['a', '\u{e9}', '\u{8d8a}']);
    assert_eq!(chars_of(""), Vec::<char>::new());
}

#[test]
fn string_of_puts_the_characters_together() {
    assert_eq!(string_of(&vec!['p', 'k', 'g', '-', '\u{e9}']), "pkg-\u{e9}");
    assert_eq!(string_of(&Vec::new()), "");
}

#[test]
fn decode_text_takes_valid_utf8() {
    assert_eq!(decode_text(vec![b'o', b'k', 0xc3, 0xa9]), Some("ok\u{e9}".to_string()));
    assert_eq!(decode_text(Vec::new()), Some(String::new()));
}

#[test]
fn decode_text_refuses_broken_utf8() {
    assert_eq!(decode_text(vec![b'a', 0xff]), None);
    assert_eq!(decode_text(vec![0xc3]), None);
}

#[test]
fn whitespace_is_the_unicode_property() {
    let mut code: u32 = 0;
    while code <= 0x10FFFF {
        if let Some(c) = char::from_u32(code) {
            assert_eq!(is_whitespace(c), c.is_whitespace(), "U+{:04X}", code);
        }
        code += 1;
    }
}

#[test]
fn matches_at_each_position() {
    let hay = cs("abcabc");
    assert!(matches_at(&hay, &cs("abc"), 0));
    assert!(!matches_at(&hay, &cs("abc"), 1));
    assert!(matches_at(&hay, &cs("abc"), 3));
    assert!(!matches_at(&hay, &cs("abc"), 4));
    assert!(matches_at(&hay, &cs(""), 6));
    assert!(!matches_at(&hay, &cs(""), 7));
}

#[test]
fn contains_finds_substrings() {
    assert!(contains(&cs("hello"), &cs("ell")));
    assert!(contains(&cs("hello"), &cs("hello")));
    assert!(contains(&cs("hello"), &cs("")));
    assert!(contains(&cs(""), &cs("")));
    assert!(contains(&cs("aab"), &cs("ab")));
    assert!(!contains(&cs(""), &cs("a")));
    assert!(!contains(&cs("abc"), &cs("abcd")));
    assert!(!contains(&cs("abc"), &cs("ac")));
}

#[test]
fn contains_agrees_with_std() {
    let hays = ["", "a", "urgency=high", "foo (1.2.3) stable; urgency=low", "aaab", "Version"];
    let needles = ["", "a", "aab", "urgency=", "urgency=low", "1.2", "Version", "b"];
    for hay in hays {
        for needle in needles {
            assert_eq!(contains(&cs(hay), &cs(needle)), hay.contains(needle), "{:?} {:?}", hay, needle);
        }
    }
}

#[test]
fn empty_text_has_no_lines() {
    assert_eq!(lines_of(""), Vec::<String>::new());
}

#[test]
fn final_line_ending_is_optional() {
    assert_eq!(lines_of("a"), vec!["a"]);
    assert_eq!(lines_of("a\n"), vec!["a"]);
    assert_eq!(lines_of("a\nb"), vec!["a", "b"]);
    assert_eq!(lines_of("a\nb\n"), vec!["a", "b"]);
}

#[test]
fn empty_lines_are_lines() {
    assert_eq!(lines_of("\n"), vec![""]);
    assert_eq!(lines_of("a\n\nb"), vec!["a", "", "b"]);
    assert_eq!(lines_of("\n\n"), vec!["", ""]);
}

#[test]
fn carriage_return_before_line_feed_ends_the_line() {
    assert_eq!(lines_of("a\r\nb\r\n"), vec!["a", "b"]);
    assert_eq!(lines_of("\r\n"), vec![""]);
    assert_eq!(lines_of("a\r\r\n"), vec!["a\r"]);
}

#[test]
fn bare_carriage_return_stays_in_the_line() {
    assert_eq!(lines_of("a\rb\n"), vec!["a\rb"]);
    assert_eq!(lines_of("a\r"), vec!["a\r"]);
    assert_eq!(lines_of("a\nb\r"), vec!["a", "b\r"]);
}

#[test]
fn split_lines_agrees_with_std() {
    let texts = [
        "", "\n", "\r", "\r\n", "a", "a\n", "a\r\n", "a\r", "a\n\nb", "a\r\n\r\nb\r", "pkg-a\npkg-b\n",
        "x\ry\nz", "\n\r\n\n", "one\ntwo\r\nthree",
    ];
    for text in texts {
        let expected: Vec<String> = text.lines().map(|line| line.to_string()).collect();
        assert_eq!(lines_of(text), expected, "{:?}", text);
    }
}

#[test]
fn tokens_are_runs_without_whitespace() {
    assert_eq!(tokens_of("  Version:   1.2.3  "), vec!["Version:", "1.2.3"]);
    assert_eq!(tokens_of("a\tb\u{a0}c\u{3000}d"), vec!["a", "b", "c", "d"]);
    assert_eq!(tokens_of("one"), vec!["one"]);
    assert_eq!(tokens_of(""), Vec::<String>::new());
    assert_eq!(tokens_of(" \t\r\n"), Vec::<String>::new());
}

#[test]
fn split_whitespace_agrees_with_std() {
    let texts = ["", " ", "a", " a", "a ", "a  b", "Version: 1:2.0-1", "\u{2003}x\u{85}y", "a\u{200b}b"];
    for text in texts {
        let expected: Vec<String> = text.split_whitespace().map(|t| t.to_string()).collect();
        assert_eq!(tokens_of(text), expected, "{:?}", text);
    }
}

#[test]
fn join_puts_line_feeds_between_lines() {
    let lines = vec![cs("a"), cs("bc"), cs(""), cs("d")];
    assert_eq!(join(&lines, 0, 4), cs("a\nbc\n\nd"));
    assert_eq!(join(&lines, 1, 2), cs("bc"));
    assert_eq!(join(&lines, 2, 3), cs(""));
    assert_eq!(join(&lines, 1, 1), cs(""));
    assert_eq!(join(&lines, 2, 4), cs("\nd"));
}

#[test]
fn same_chars_compares_every_character() {
    assert!(same_chars(&cs("Version:"), &cs("Version:")));
    assert!(same_chars(&cs(""), &cs("")));
    assert!(!same_chars(&cs("Version:"), &cs("Version")));
    assert!(!same_chars(&cs("Version"), &cs("Version:")));
    assert!(!same_chars(&cs("Version:"), &cs("version:")));
    assert!(!same_chars(&cs("Config-Version:"), &cs("Version:")));
}
