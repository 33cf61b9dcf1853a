use busca::FileMatch;
use busca::ScanFilter;
use busca::evaluate_candidate;
use busca::rank_matches;

const REFERENCE: &str = "fn main() {\n    println!(\"hello\");\n}\n";

fn candidates() -> Vec<(&'static str, &'static str)> {
    vec![
        ("src/exact.rs", "fn main() {\n    println!(\"hello\");\n}\n"),
        ("src/half.rs", "fn main() {\n    println!(\"goodbye\");\n}\n"),
        ("notes.txt", "nothing shared at all\n"),
        ("src/empty.rs", ""),
        ("src/also_half.rs", "fn main() {\n    eprintln!(\"hello\");\n}\n"),
    ]
}

fn search_once(count: u8) -> (Vec<FileMatch>, String) {
    let filter = ScanFilter::new(None, None, 10_000).unwrap();
    let found: Vec<FileMatch> = candidates()
        .into_iter()
        .filter_map(|(path, content)| {
            evaluate_candidate(path, content, &filter, REFERENCE).ok()
        })
        .collect();
    let ranked = rank_matches(found, count);
    let table = ranked.get_formatted_string();
    (ranked.0, table)
}

#[test]
fn repeated_search_over_unchanged_candidates_is_identical() {
    let (first_matches, first_table) = search_once(10);
    let (second_matches, second_table) = search_once(10);
    assert_eq!(first_matches, second_matches);
    assert_eq!(first_table, second_table);
}

#[test]
fn pipeline_ranks_the_exact_copy_first() {
    let (matches, _) = search_once(10);
    // the empty candidate is skipped; the other four are scored
    assert_eq!(matches.len(), 4);
    assert_eq!(matches[0].path, "src/exact.rs");
    assert_eq!(matches[0].perc_shared.num, matches[0].perc_shared.den);
    // the two half matches share two of three reference lines and
    // keep their scan order
    assert_eq!(matches[1].path, "src/half.rs");
    assert_eq!(matches[1].perc_shared.num, 2);
    assert_eq!(matches[1].perc_shared.den, 3);
    assert_eq!(matches[2].path, "src/also_half.rs");
    assert_eq!(matches[3].path, "notes.txt");
}

#[test]
fn pipeline_truncation_keeps_the_best() {
    let (matches, _) = search_once(1);
    assert_eq!(matches.len(), 1);
    assert_eq!(matches[0].path, "src/exact.rs");
}
