use busca::DiffReport;
use busca::detailed_diff;
use busca::diff::ChangeKind;

fn line_text(segments: &[(bool, String)]) -> String {
    segments.iter().map(|(_, text)| text.as_str()).collect()
}

#[test]
fn identical_texts_yield_the_identical_signal() {
    let text = "a\nb\nc\n";
    assert!(matches!(detailed_diff(text, text), DiffReport::Identical));
    assert!(matches!(detailed_diff("", ""), DiffReport::Identical));
}

#[test]
fn one_changed_line_yields_one_group() {
    let report = detailed_diff("a\nb\nc\n", "a\nx\nc\n");
    let groups = match report {
        DiffReport::Groups(groups) => groups,
        DiffReport::Identical => panic!("texts differ"),
    };
    assert_eq!(groups.len(), 1);
    let kinds: Vec<ChangeKind> = groups[0].iter().map(|ins| ins.kind).collect();
    assert_eq!(
        kinds,
        vec![ChangeKind::Equal, ChangeKind::Delete, ChangeKind::Insert, ChangeKind::Equal]
    );
}

#[test]
fn line_numbers_are_one_based_and_sided() {
    let report = detailed_diff("a\nb\nc\n", "a\nx\nc\n");
    let groups = match report {
        DiffReport::Groups(groups) => groups,
        DiffReport::Identical => panic!("texts differ"),
    };
    let g = &groups[0];
    assert_eq!((g[0].old_line, g[0].new_line), (Some(1), Some(1)));
    assert_eq!((g[1].old_line, g[1].new_line), (Some(2), None));
    assert_eq!((g[2].old_line, g[2].new_line), (None, Some(2)));
    assert_eq!((g[3].old_line, g[3].new_line), (Some(3), Some(3)));
}

#[test]
fn segments_reconstruct_the_line_text() {
    let report = detailed_diff("a\nb\nc\n", "a\nx\nc\n");
    let groups = match report {
        DiffReport::Groups(groups) => groups,
        DiffReport::Identical => panic!("texts differ"),
    };
    let g = &groups[0];
    assert_eq!(line_text(&g[0].segments), "a\n");
    assert_eq!(line_text(&g[1].segments), "b\n");
    assert_eq!(line_text(&g[2].segments), "x\n");
    assert_eq!(line_text(&g[3].segments), "c\n");
    assert!(g.iter().all(|ins| !ins.missing_newline));
}

#[test]
fn distant_changes_form_separate_groups() {
    // two changed regions more than six unchanged lines apart
    let old = "a0\na1\na2\na3\na4\na5\na6\na7\na8\na9\nb0\nb1\n";
    let new = "X0\na1\na2\na3\na4\na5\na6\na7\na8\na9\nb0\nY1\n";
    let report = detailed_diff(old, new);
    let groups = match report {
        DiffReport::Groups(groups) => groups,
        DiffReport::Identical => panic!("texts differ"),
    };
    assert_eq!(groups.len(), 2);
}

#[test]
fn missing_trailing_newline_is_flagged() {
    let report = detailed_diff("a\nb", "a\nz");
    let groups = match report {
        DiffReport::Groups(groups) => groups,
        DiffReport::Identical => panic!("texts differ"),
    };
    let last_group = groups.last().unwrap();
    let last = last_group.last().unwrap();
    assert!(last.missing_newline);
}

#[test]
fn inline_emphasis_marks_the_changed_fragment() {
    let old = "keep this line one\nchange only the tail here\nkeep this line two\n";
    let new = "keep this line one\nchange only the head here\nkeep this line two\n";
    let report = detailed_diff(old, new);
    let groups = match report {
        DiffReport::Groups(groups) => groups,
        DiffReport::Identical => panic!("texts differ"),
    };
    let changed: Vec<_> = groups
        .iter()
        .flatten()
        .filter(|ins| ins.kind != ChangeKind::Equal)
        .collect();
    assert!(!changed.is_empty());
    // at least one changed line carries an emphasized fragment and
    // an unchanged one
    assert!(changed.iter().any(|ins| ins.segments.iter().any(|(e, _)| *e)));
    assert!(changed.iter().any(|ins| ins.segments.iter().any(|(e, _)| !*e)));
}

#[test]
fn any_difference_defeats_the_identical_signal() {
    assert!(matches!(detailed_diff("a\n", "a"), DiffReport::Groups(_)));
    assert!(matches!(detailed_diff("", "x"), DiffReport::Groups(_)));
    assert!(matches!(detailed_diff("x", ""), DiffReport::Groups(_)));
}
