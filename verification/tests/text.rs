use ghost_commands::text::{
    chars_of, decimal_text, is_white_space, join, line_ranges, piece_ranges, push_between,
    same_text, text_between, trim_between,
};

fn strings(list: &[&str]) -> Vec<String> {
    list.iter().map(|s| s.to_string()).collect()
}

fn lines(s: &str) -> Vec<String> {
    let chars = chars_of(s);
    line_ranges(&chars).into_iter().map(|(a, b)| text_between(&chars, a, b)).collect()
}

fn pieces(s: &str, c: char) -> Vec<String> {
    let chars = chars_of(s);
    piece_ranges(&chars, c).into_iter().map(|(a, b)| text_between(&chars, a, b)).collect()
}

fn trim(s: &str) -> String {
    let chars = chars_of(s);
    let (a, b) = trim_between(&chars, 0, chars.len());
    text_between(&chars, a, b)
}

#[test]
fn white_space_is_that_of_the_standard_library() {
    for c in '\0'..=char::MAX {
        assert_eq!(is_white_space(c), c.is_whitespace(), "{:?}", c);
    }
}

#[test]
fn decimal_numbers() {
    for n in [0u64, 7, 9, 10, 19, 100, 101, 4096, 999_999, 1_000_000, u64::MAX] {
        assert_eq!(decimal_text(n), n.to_string());
    }
}

#[test]
fn lines_are_those_of_the_standard_library() {
    for s in [
        "", "\n", "a", "a\n", "a\nb", "a\r\nb\r\n", "a\r", "a\r\r\n", "\r\n", "\r", "\n\n", "a\n\nb",
        "\u{e9}\u{1f600}\nx",
    ] {
        let expected: Vec<String> = s.lines().map(|l| l.to_string()).collect();
        assert_eq!(lines(s), expected, "{:?}", s);
    }
}

#[test]
fn pieces_are_those_of_the_standard_library() {
    for s in ["", ",", "a", "a,b", ",a,", "a,,b", "\u{e9},\u{1f600}"] {
        let expected: Vec<String> = s.split(',').map(|l| l.to_string()).collect();
        assert_eq!(pieces(s, ','), expected, "{:?}", s);
    }
}

#[test]
fn trimming_is_that_of_the_standard_library() {
    for s in ["", " ", " a ", "\u{a0}a b\t\n", "a", "\u{3000}\u{3000}", "\u{200b}a"] {
        assert_eq!(trim(s), s.trim(), "{:?}", s);
    }
}

#[test]
fn joining() {
    assert_eq!(join(&strings(&[]), " "), "");
    assert_eq!(join(&strings(&["a"]), " "), "a");
    assert_eq!(join(&strings(&["a", "", "b c"]), ", "), "a, , b c");
}

#[test]
fn pushing_appends() {
    let mut out = String::from("x");
    push_between(&mut out, &chars_of("abcd"), 1, 3);
    assert_eq!(out, "xbc");
}

#[test]
fn same_texts() {
    assert!(same_text("a", "a"));
    assert!(!same_text("a", "A"));
    assert!(!same_text("a", ""));
}
