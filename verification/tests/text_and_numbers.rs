use ray::numbers::{fmt_bool, fmt_i64, fmt_u64, parse_bool, parse_i32, parse_usize};
use ray::text::{
    chars_of, concat2, contains, ends_with, find, first_line_of, is_blank, join_strings, lines_of, replace,
    starts_with, string_of, trim_chars, wrap_line,
};

fn cs(s: &str) -> Vec<char> {
    s.chars().collect()
}

#[test]
fn number_formatting() {
    assert_eq!(fmt_u64(0), "0");
    assert_eq!(fmt_u64(1234567890), "1234567890");
    assert_eq!(fmt_u64(u64::MAX), "18446744073709551615");
    assert_eq!(fmt_i64(-42), "-42");
    assert_eq!(fmt_i64(i64::MIN), "-9223372036854775808");
    assert_eq!(fmt_i64(7), "7");
    assert_eq!(fmt_bool(true), "true");
    assert_eq!(fmt_bool(false), "false");
}

#[test]
fn number_parsing_matches_std() {
    for s in ["0", "17", "+3", "", "-1", "abc", "12a", "18446744073709551615", "18446744073709551616", " 5"] {
        assert_eq!(parse_usize(s), s.parse::<usize>().ok(), "usize {:?}", s);
    }
    for s in ["0", "-0", "-2147483648", "2147483647", "2147483648", "-2147483649", "+12", "-", "+", "1 "] {
        assert_eq!(parse_i32(s), s.parse::<i32>().ok(), "i32 {:?}", s);
    }
    for s in ["true", "false", "True", "", "truee", "fals"] {
        assert_eq!(parse_bool(s), s.parse::<bool>().ok(), "bool {:?}", s);
    }
}

#[test]
fn text_round_trips() {
    for n in [0usize, 9, 10, 65535, usize::MAX] {
        assert_eq!(parse_usize(&fmt_u64(n as u64)), Some(n));
    }
    for n in [i32::MIN, -1, 0, 1, i32::MAX] {
        assert_eq!(parse_i32(&fmt_i64(n as i64)), Some(n));
    }
    for b in [true, false] {
        assert_eq!(parse_bool(&fmt_bool(b)), Some(b));
    }
}

#[test]
fn char_conversions_and_trimming() {
    assert_eq!(chars_of("añb"), vec!['a', 'ñ', 'b']);
    assert_eq!(string_of(&vec!['x', 'é']), "xé");
    assert_eq!(trim_chars(&cs("  \t hi there \n")), cs("hi there"));
    assert_eq!(trim_chars(&cs("\u{3000}全角\u{3000}")), cs("全角"));
    assert!(is_blank(&cs(" \t\n")));
    assert!(is_blank(&cs("")));
    assert!(!is_blank(&cs(" a ")));
}

#[test]
fn searching_in_text() {
    assert!(starts_with(&cs("yomichan_importer::db"), &cs("yomichan_importer")));
    assert!(!starts_with(&cs("yomi"), &cs("yomichan")));
    assert_eq!(find(&cs("abcabc"), &cs("ca")), Some(2));
    assert_eq!(find(&cs("abc"), &cs("x")), None);
    assert_eq!(find(&cs("abc"), &cs("")), Some(0));
    assert!(contains(&cs("#version 330 core"), &cs("330")));
    assert!(!contains(&cs("#version 100"), &cs("330")));
    assert!(ends_with("wave.frag", ".frag"));
    assert!(!ends_with("wave.vert", ".frag"));
}

#[test]
fn first_line_like_std() {
    for s in ["", "one", "one\ntwo", "one\r\ntwo", "\nrest", "bare\r"] {
        let got = first_line_of(&cs(s)).map(|v| v.into_iter().collect::<String>());
        assert_eq!(got.as_deref(), s.lines().next(), "{:?}", s);
    }
}

#[test]
fn lines_like_std() {
    for s in ["", "a", "a\nb", "a\r\nb\r\n", "a\n\nb\n", "x\r", "\n", "a\rb\nc"] {
        let expected: Vec<String> = s.lines().map(|l| l.to_string()).collect();
        assert_eq!(lines_of(s), expected, "{:?}", s);
    }
}

#[test]
fn joining_replacing_and_concatenating() {
    let v = vec!["a".to_string(), "b".to_string(), "c".to_string()];
    assert_eq!(join_strings(&v, ", "), "a, b, c");
    assert_eq!(join_strings(&Vec::new(), "\n"), "");
    assert_eq!(replace("shaders/a.frag.frag", ".frag", ".vert"), "shaders/a.vert.vert");
    assert_eq!(replace("aaa", "aa", "b"), "ba");
    assert_eq!(concat2("Selected: ", "x"), "Selected: x");
}

#[test]
fn wrapping_by_characters() {
    assert_eq!(wrap_line("short", 10), vec!["short".to_string()]);
    assert_eq!(wrap_line("abcdefg", 3), vec!["abc".to_string(), "def".to_string(), "g".to_string()]);
    assert_eq!(wrap_line("日本語の文", 2), vec!["日本".to_string(), "語の".to_string(), "文".to_string()]);
    assert_eq!(wrap_line("", 4), vec!["".to_string()]);
}
