use busca::count_lines;
use busca::count_ref_lines;
use busca::lines::count_text_lines;

#[test]
fn empty_text_has_no_line_tokens() {
    assert_eq!(count_lines(""), 0);
    assert_eq!(count_text_lines(""), 0);
}

#[test]
fn empty_text_still_has_one_split_segment() {
    assert_eq!(count_ref_lines(""), 1);
}

#[test]
fn trailing_terminator_does_not_open_a_new_line() {
    assert_eq!(count_lines("a\n"), 1);
    assert_eq!(count_lines("a\nb\n"), 2);
    assert_eq!(count_ref_lines("a\n"), 1);
    assert_eq!(count_ref_lines("a\nb\n"), 2);
}

#[test]
fn missing_trailing_terminator_counts_the_partial_line() {
    assert_eq!(count_lines("a"), 1);
    assert_eq!(count_lines("a\nb"), 2);
    assert_eq!(count_ref_lines("a"), 1);
    assert_eq!(count_ref_lines("a\nb"), 2);
}

#[test]
fn carriage_return_newline_is_one_break() {
    assert_eq!(count_lines("a\r\nb"), 2);
    assert_eq!(count_lines("a\r\nb\r\n"), 2);
}

#[test]
fn lone_carriage_return_breaks_a_diff_token() {
    assert_eq!(count_lines("a\rb"), 2);
    assert_eq!(count_lines("a\r"), 1);
    // the scoring denominator splits on '\n' alone
    assert_eq!(count_ref_lines("a\rb"), 1);
}

#[test]
fn blank_lines_count() {
    assert_eq!(count_lines("\n"), 1);
    assert_eq!(count_lines("\n\n"), 2);
    assert_eq!(count_ref_lines("\n"), 1);
    assert_eq!(count_text_lines("\n"), 1);
}
