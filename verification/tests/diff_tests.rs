use busca::get_num_shared_lines;
use busca::get_perc_shared_lines;

#[test]
fn shared_lines_with_trailing_terminator() {
    // ✓   ✓  x   ✓   x  = 3 of 5 counted reference lines
    let ref_lines = "12\n14\n5\n17\n19\n";
    let comp_lines = "11\n12\n13\n14\n15\n16\n\n17\n18\n";
    assert_eq!(get_num_shared_lines(ref_lines, comp_lines), 3);
    let score = get_perc_shared_lines(ref_lines, comp_lines);
    assert_eq!(score.num, 3);
    assert_eq!(score.den, 5);
}

#[test]
fn shared_lines_without_trailing_terminator() {
    // ✓   ✓  x   x  = 2 of 4 counted reference lines
    let ref_lines = "12\n14\n5\n17";
    let comp_lines = "11\n12\n13\n14\n15\n16\n\n17\n18\n";
    assert_eq!(get_num_shared_lines(ref_lines, comp_lines), 2);
    let score = get_perc_shared_lines(ref_lines, comp_lines);
    assert_eq!(score.num, 2);
    assert_eq!(score.den, 4);
}

#[test]
fn identical_text_is_a_perfect_match() {
    let text = "alpha\nbeta\ngamma\n";
    assert_eq!(get_num_shared_lines(text, text), 3);
    let score = get_perc_shared_lines(text, text);
    assert_eq!(score.num, score.den);
    assert_eq!(score.den, 3);
}

#[test]
fn identical_text_without_terminator_is_a_perfect_match() {
    let text = "alpha\nbeta";
    let score = get_perc_shared_lines(text, text);
    assert_eq!(score.num, score.den);
    assert_eq!(score.den, 2);
}

#[test]
fn empty_reference_scores_zero() {
    let score = get_perc_shared_lines("", "anything\nat all\n");
    assert_eq!(score.num, 0);
    assert_eq!(score.den, 1);
}

#[test]
fn empty_candidate_shares_nothing() {
    let ref_lines = "a\nb\nc\n";
    assert_eq!(get_num_shared_lines(ref_lines, ""), 0);
    let score = get_perc_shared_lines(ref_lines, "");
    assert_eq!(score.num, 0);
    assert_eq!(score.den, 3);
}

#[test]
fn shared_count_is_bounded_by_both_line_counts() {
    let r = "a\nb\nc\nd\n";
    let c = "b\nc\n";
    let shared = get_num_shared_lines(r, c);
    assert!(shared <= busca::count_lines(r));
    assert!(shared <= busca::count_lines(c));
    assert_eq!(shared, 2);
}

#[test]
fn scores_stay_in_unit_range() {
    let cases = [
        ("", ""),
        ("a", "a"),
        ("a\n", "b\n"),
        ("a\nb\nc", "c\nb\na"),
        ("x\n\n\n", "\n\nx\n"),
    ];
    for (r, c) in cases {
        let score = get_perc_shared_lines(r, c);
        assert!(score.den >= 1);
        assert!(score.num <= score.den);
    }
}
