use leda::gemini::text::{
    chars_of, decimal_string, find_newline_at, find_whitespace_at, skip_whitespace_at,
    split_lines, whitespace,
};

fn chars(s: &str) -> Vec<char> {
    s.chars().collect()
}

fn lines_of(s: &str) -> Vec<String> {
    split_lines(&chars(s)).iter().map(|line| line.iter().collect()).collect()
}

#[test]
fn whitespace_is_the_unicode_property() {
    for code in 0..=0x10FFFFu32 {
        if let Some(c) = char::from_u32(code) {
            assert_eq!(whitespace(c), c.is_whitespace(), "U+{:04X}", code);
        }
    }
}

#[test]
fn decimal_of_numbers() {
    assert_eq!(decimal_string(0), "0");
    assert_eq!(decimal_string(7), "7");
    assert_eq!(decimal_string(10), "10");
    assert_eq!(decimal_string(1965), "1965");
    assert_eq!(decimal_string(100_000), "100000");
    assert_eq!(decimal_string(u64::MAX), "18446744073709551615");
    for n in 0..2000u64 {
        assert_eq!(decimal_string(n), n.to_string());
    }
}

#[test]
fn characters_of_a_string() {
    assert_eq!(chars_of(""), Vec::<char>::new());
    assert_eq!(chars_of("a\u{e9}\u{1f600}\n"), vec!['a', '\u{e9}', '\u{1f600}', '\n']);
}

#[test]
fn scanning_positions() {
    let line = chars("  ab \t cd");
    assert_eq!(skip_whitespace_at(&line, 0), 2);
    assert_eq!(skip_whitespace_at(&line, 2), 2);
    assert_eq!(skip_whitespace_at(&line, 4), 7);
    assert_eq!(skip_whitespace_at(&line, 9), 9);
    assert_eq!(skip_whitespace_at(&line, 20), 20);
    assert_eq!(find_whitespace_at(&line, 2), 4);
    assert_eq!(find_whitespace_at(&line, 0), 0);
    assert_eq!(find_whitespace_at(&line, 7), 9);
    assert_eq!(find_whitespace_at(&line, 20), 20);
    let text = chars("ab\ncd\n");
    assert_eq!(find_newline_at(&text, 0), 2);
    assert_eq!(find_newline_at(&text, 2), 2);
    assert_eq!(find_newline_at(&text, 3), 5);
    assert_eq!(find_newline_at(&text, 6), 6);
    assert_eq!(find_newline_at(&chars("abc"), 1), 3);
}

#[test]
fn lines_of_a_text() {
    assert_eq!(lines_of(""), Vec::<String>::new());
    assert_eq!(lines_of("\n"), vec![""]);
    assert_eq!(lines_of("a"), vec!["a"]);
    assert_eq!(lines_of("a\n"), vec!["a"]);
    assert_eq!(lines_of("a\nb"), vec!["a", "b"]);
    assert_eq!(lines_of("a\n\nb\n"), vec!["a", "", "b"]);
    assert_eq!(lines_of("a\r\nb\r\n"), vec!["a", "b"]);
    assert_eq!(lines_of("a\r"), vec!["a"]);
    assert_eq!(lines_of("\r\n\r\n"), vec!["", ""]);
    assert_eq!(lines_of("a\r\r\nb\rc"), vec!["a\r", "b\rc"]);
}
