use ghost_commands::excerpt::render_log;

#[test]
fn short_logs_are_shown_as_they_are() {
    assert_eq!(render_log("a\r\nb", false, 1, 1), "a\r\nb");
    assert_eq!(render_log("", false, usize::MAX, usize::MAX), "");
    assert_eq!(render_log("a\nb\nc", true, 0, 0), "a\nb\nc");
}

#[test]
fn long_logs_are_cut() {
    assert_eq!(
        render_log("1\n2\n3\n4\n5\n", false, 2, 1),
        "1\n2\n\n... 2 lines omitted ...\n\n5\n"
    );
}

#[test]
fn the_last_line_gets_a_newline() {
    assert_eq!(render_log("1\n2\n3", false, 1, 1), "1\n\n... 1 lines omitted ...\n\n3\n");
}

#[test]
fn terminators_become_newlines() {
    assert_eq!(
        render_log("1\r\n2\r\n3\r\n", false, 1, 1),
        "1\n\n... 1 lines omitted ...\n\n3\n"
    );
}

#[test]
fn nothing_but_the_note() {
    assert_eq!(render_log("1\n2\n", false, 0, 0), "\n... 2 lines omitted ...\n\n");
}

#[test]
fn the_excerpt_has_the_first_and_the_last_lines() {
    let content: String = (0..250).map(|i| format!("line {}\n", i)).collect();
    let shown = render_log(&content, false, 3, 2);
    let lines: Vec<&str> = shown.lines().collect();
    assert_eq!(
        lines,
        vec![
            "line 0",
            "line 1",
            "line 2",
            "",
            "... 245 lines omitted ...",
            "",
            "line 248",
            "line 249"
        ]
    );
}

#[test]
fn a_line_that_ends_in_a_return_loses_it_when_it_is_read_again() {
    let shown = render_log("a\r\r\nb\nc\n", false, 1, 1);
    assert_eq!(shown, "a\r\n\n... 1 lines omitted ...\n\nc\n");
    assert_eq!(shown.lines().next(), Some("a"));
}
