use busca::FileMatch;
use busca::Score;
use busca::clamp_result_count;
use busca::rank_matches;

fn m(path: &str, num: usize, den: usize) -> FileMatch {
    FileMatch { path: path.to_owned(), perc_shared: Score { num, den } }
}

#[test]
fn ranks_descending_by_score() {
    let found = vec![m("low.py", 1, 10), m("high.py", 9, 10), m("mid.py", 5, 10)];
    let ranked = rank_matches(found, 10);
    let paths: Vec<&str> = ranked.0.iter().map(|fm| fm.path.as_str()).collect();
    assert_eq!(paths, vec!["high.py", "mid.py", "low.py"]);
}

#[test]
fn truncates_to_requested_count() {
    let found = vec![m("a", 1, 10), m("b", 2, 10), m("c", 3, 10), m("d", 4, 10)];
    let ranked = rank_matches(found, 2);
    let paths: Vec<&str> = ranked.0.iter().map(|fm| fm.path.as_str()).collect();
    assert_eq!(paths, vec!["d", "c"]);
}

#[test]
fn equal_scores_keep_scan_order() {
    let found = vec![
        m("first.py", 1, 2),
        m("second.py", 2, 4),
        m("third.py", 3, 6),
        m("winner.py", 9, 10),
    ];
    let ranked = rank_matches(found, 10);
    let paths: Vec<&str> = ranked.0.iter().map(|fm| fm.path.as_str()).collect();
    // 1/2, 2/4 and 3/6 are the same score: scan order decides
    assert_eq!(paths, vec!["winner.py", "first.py", "second.py", "third.py"]);
}

#[test]
fn repeated_ranking_is_identical() {
    let found = vec![m("a", 1, 3), m("b", 2, 6), m("c", 2, 3), m("d", 1, 3)];
    let once = rank_matches(found.clone(), 3);
    let twice = rank_matches(found, 3);
    assert_eq!(once, twice);
}

#[test]
fn zero_count_falls_back_to_default() {
    assert_eq!(clamp_result_count(0), 10);
    let found = vec![
        m("a", 1, 12),
        m("b", 2, 12),
        m("c", 3, 12),
        m("d", 4, 12),
        m("e", 5, 12),
        m("f", 6, 12),
        m("g", 7, 12),
        m("h", 8, 12),
        m("i", 9, 12),
        m("j", 10, 12),
        m("k", 11, 12),
        m("l", 12, 12),
    ];
    let ranked = rank_matches(found, 0);
    assert_eq!(ranked.0.len(), 10);
}

#[test]
fn oversized_count_falls_back_to_default() {
    assert_eq!(clamp_result_count(201), 10);
    assert_eq!(clamp_result_count(255), 10);
}

#[test]
fn in_range_count_is_kept() {
    assert_eq!(clamp_result_count(1), 1);
    assert_eq!(clamp_result_count(10), 10);
    assert_eq!(clamp_result_count(200), 200);
}

#[test]
fn empty_input_ranks_to_empty() {
    let ranked = rank_matches(Vec::new(), 10);
    assert!(ranked.0.is_empty());
}
