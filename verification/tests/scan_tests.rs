use busca::ScanFilter;
use busca::SkipReason;
use busca::evaluate_candidate;

fn filter(
    includes: Option<Vec<&str>>,
    excludes: Option<Vec<&str>>,
    max_lines: u32,
) -> ScanFilter {
    let own = |v: Vec<&str>| v.into_iter().map(|s| s.to_owned()).collect::<Vec<String>>();
    ScanFilter::new(includes.map(own), excludes.map(own), max_lines).unwrap()
}

#[test]
fn include_glob_accepts_matching_path() {
    let f = filter(Some(vec!["*.json"]), Some(vec!["*.yml"]), 5000);
    let result = evaluate_candidate("nested_dir/sample.json", "{}\n", &f, "");
    let fm = result.unwrap();
    assert_eq!(fm.path, "nested_dir/sample.json");
    assert_eq!(fm.perc_shared.num, 0);
    assert_eq!(fm.perc_shared.den, 1);
}

#[test]
fn include_glob_skips_other_paths() {
    let f = filter(Some(vec!["*.json"]), None, 5000);
    let result = evaluate_candidate("src/main.py", "print(1)\n", &f, "");
    assert_eq!(result.unwrap_err(), SkipReason::NotIncluded);
}

#[test]
fn exclude_glob_skips_matching_path() {
    let f = filter(None, Some(vec!["*.json"]), 5000);
    let result = evaluate_candidate("nested_dir/sample.json", "{}\n", &f, "");
    assert_eq!(result.unwrap_err(), SkipReason::Excluded);
}

#[test]
fn exclude_glob_keeps_other_paths() {
    let f = filter(None, Some(vec!["*.json"]), 5000);
    let result = evaluate_candidate("src/main.py", "print(1)\n", &f, "print(1)\n");
    let fm = result.unwrap();
    assert_eq!(fm.perc_shared.num, fm.perc_shared.den);
}

#[test]
fn include_filter_runs_before_exclude() {
    let f = filter(Some(vec!["*.json"]), Some(vec!["*.json"]), 5000);
    let result = evaluate_candidate("other.py", "x\n", &f, "");
    assert_eq!(result.unwrap_err(), SkipReason::NotIncluded);
}

#[test]
fn empty_content_is_skipped() {
    let f = filter(None, None, 5000);
    let result = evaluate_candidate("empty.txt", "", &f, "a\n");
    assert_eq!(result.unwrap_err(), SkipReason::LineLimit);
}

#[test]
fn over_long_content_is_skipped() {
    let f = filter(None, None, 2);
    let result = evaluate_candidate("long.txt", "a\nb\nc\n", &f, "a\n");
    assert_eq!(result.unwrap_err(), SkipReason::LineLimit);
}

#[test]
fn content_at_the_line_limit_is_scored() {
    let f = filter(None, None, 3);
    let result = evaluate_candidate("ok.txt", "a\nb\nc\n", &f, "a\nz\nc\n");
    let fm = result.unwrap();
    assert_eq!(fm.perc_shared.num, 2);
    assert_eq!(fm.perc_shared.den, 3);
}

#[test]
fn same_content_comparison_is_perfect() {
    let text = "def main():\n    print('hi')\n";
    let f = filter(Some(vec!["*.py"]), Some(vec!["*.yml"]), 5000);
    let result = evaluate_candidate("pkg/prog.py", text, &f, text);
    let fm = result.unwrap();
    assert_eq!(fm.perc_shared.num, fm.perc_shared.den);
}

#[test]
fn malformed_glob_is_reported() {
    let result = ScanFilter::new(Some(vec!["a***".to_owned()]), None, 100);
    assert!(result.is_err());
    let err = result.err().unwrap();
    assert!(!err.msg.is_empty());
    assert_eq!(err.pattern, "a***");
}

#[test]
fn malformed_exclude_glob_is_reported() {
    let result = ScanFilter::new(None, Some(vec!["[".to_owned()]), 100);
    assert!(result.is_err());
    assert_eq!(result.err().unwrap().pattern, "[");
}

#[test]
fn path_filters_decide_without_content() {
    let f = filter(Some(vec!["*.py"]), Some(vec!["*_test.py"]), 5000);
    assert!(busca::check_path_filters("pkg/mod.py", &f).is_ok());
    assert_eq!(
        busca::check_path_filters("pkg/mod.rs", &f).unwrap_err(),
        SkipReason::NotIncluded
    );
    assert_eq!(
        busca::check_path_filters("pkg/mod_test.py", &f).unwrap_err(),
        SkipReason::Excluded
    );
}

#[test]
fn pattern_keeps_its_source_text() {
    let p = busca::GlobPattern::new("*.py").unwrap();
    assert_eq!(p.source(), "*.py");
    assert!(p.matches("pkg/mod.py"));
    assert!(!p.matches("pkg/mod.rs"));
}
