//! Candidate filtering and scoring.
//!
//! The walk over the file system and the reading of candidate files
//! are outside work; what the library owns is the decision made for
//! each candidate that could be read: the glob filters, the line
//! limit, and the score.  [`evaluate_candidate`] takes a path and
//! the decoded content and either produces the scored match or says
//! exactly why the candidate is skipped.

use vstd::prelude::*;

use crate::diff::score_of;
use crate::globs::GlobError;
use crate::globs::GlobPattern;
use crate::globs::glob_compiles;
use crate::globs::glob_match;
use crate::lines::text_line_count;
use crate::matches::FileMatch;

verus! {

/// Why a candidate was skipped.
#[derive(Clone, Copy, PartialEq, Eq, Structural, Debug)]
pub enum SkipReason {
    /// Include globs are configured and none matches the path.
    NotIncluded,
    /// An exclude glob matches the path.
    Excluded,
    /// The content has no lines, or more than the configured
    /// maximum.
    LineLimit,
}

/// The filters a candidate must pass before it is scored.
pub struct ScanFilter {
    /// Globs that qualify a path; `None` qualifies every path.
    pub includes: Option<Vec<GlobPattern>>,
    /// Globs that disqualify a path; `None` disqualifies none.
    pub excludes: Option<Vec<GlobPattern>>,
    /// Largest line count a candidate may have.
    pub max_lines: u32,
}

/// Some pattern of the list matches the path.
pub open spec fn any_glob_matches(ps: Seq<GlobPattern>, path: Seq<char>) -> bool {
    exists|i: int| 0 <= i < ps.len() && glob_match((#[trigger] ps[i]).spec_source(), path)
}

/// Every source in the optional list is a well-formed glob pattern.
pub open spec fn opt_all_compile(sources: Option<Vec<String>>) -> bool {
    match sources {
        None => true,
        Some(v) => forall|i: int|
            0 <= i < v@.len() ==> glob_compiles((#[trigger] v@[i])@),
    }
}

/// The optional pattern list was compiled from exactly the optional
/// source list.
pub open spec fn opt_sources_match(
    sources: Option<Vec<String>>,
    patterns: Option<Vec<GlobPattern>>,
) -> bool {
    match (sources, patterns) {
        (None, None) => true,
        (Some(v), Some(ps)) => ps@.len() == v@.len() && forall|i: int|
            0 <= i < v@.len() ==> (#[trigger] ps@[i]).spec_source() == v@[i]@,
        _ => false,
    }
}

/// The glob stage of the decision, which needs no file content: the
/// include globs qualify the path, then the exclude globs may
/// disqualify it.
pub open spec fn path_filter_decision(filter: ScanFilter, path: Seq<char>) -> Result<
    (),
    SkipReason,
> {
    if filter.includes is Some && !any_glob_matches(filter.includes->0@, path) {
        Err(SkipReason::NotIncluded)
    } else if filter.excludes is Some && any_glob_matches(filter.excludes->0@, path) {
        Err(SkipReason::Excluded)
    } else {
        Ok(())
    }
}

/// The decision for one readable candidate: its score, or the first
/// reason in filter order — include globs, exclude globs, line
/// limit — to skip it.
pub open spec fn evaluation(
    filter: ScanFilter,
    path: Seq<char>,
    content: Seq<char>,
    reference: Seq<char>,
) -> Result<crate::score::Score, SkipReason> {
    if path_filter_decision(filter, path) is Err {
        Err(path_filter_decision(filter, path)->Err_0)
    } else if text_line_count(content) == 0 || text_line_count(content) > filter.max_lines {
        Err(SkipReason::LineLimit)
    } else {
        Ok(score_of(reference, content))
    }
}

/// A malformed source with the error's pattern text stands in the
/// optional list.
pub open spec fn opt_has_malformed(sources: Option<Vec<String>>, pattern: Seq<char>) -> bool {
    match sources {
        None => false,
        Some(v) => exists|i: int|
            0 <= i < v@.len() && (#[trigger] v@[i])@ == pattern && !glob_compiles(v@[i]@),
    }
}

/// Compiles every source to a pattern; the first malformed source
/// fails the whole list and is named by the error.
pub fn compile_patterns(sources: &Vec<String>) -> (r: Result<Vec<GlobPattern>, GlobError>)
    ensures
        r is Ok <==> (forall|i: int|
            0 <= i < sources@.len() ==> glob_compiles((#[trigger] sources@[i])@)),
        r is Ok ==> {
            let ps = r->Ok_0;
            ps@.len() == sources@.len() && forall|i: int|
                0 <= i < sources@.len() ==> (#[trigger] ps@[i]).spec_source() == sources@[i]@
        },
        r is Err ==> exists|i: int|
            0 <= i < sources@.len() && (#[trigger] sources@[i])@ == r->Err_0.pattern@
                && !glob_compiles(sources@[i]@),
{
    let mut patterns: Vec<GlobPattern> = Vec::new();
    let mut i: usize = 0;
    while i < sources.len()
        invariant
            0 <= i <= sources@.len(),
            patterns@.len() == i,
            forall|k: int| 0 <= k < i ==> glob_compiles((#[trigger] sources@[k])@),
            forall|k: int|
                0 <= k < i ==> (#[trigger] patterns@[k]).spec_source() == sources@[k]@,
        decreases sources@.len() - i,
    {
        match GlobPattern::new(sources[i].as_str()) {
            Ok(p) => {
                patterns.push(p);
            },
            Err(e) => {
                return Err(e);
            },
        }
        i = i + 1;
    }
    Ok(patterns)
}

impl ScanFilter {
    /// Builds the filter, compiling the optional include and exclude
    /// glob sources; the first malformed pattern is the error and is
    /// named by it.
    pub fn new(includes: Option<Vec<String>>, excludes: Option<Vec<String>>, max_lines: u32) -> (r:
        Result<ScanFilter, GlobError>)
        ensures
            r is Ok <==> opt_all_compile(includes) && opt_all_compile(excludes),
            r is Ok ==> {
                let f = r->Ok_0;
                &&& f.max_lines == max_lines
                &&& opt_sources_match(includes, f.includes)
                &&& opt_sources_match(excludes, f.excludes)
            },
            r is Err ==> opt_has_malformed(includes, r->Err_0.pattern@) || opt_has_malformed(
                excludes,
                r->Err_0.pattern@,
            ),
    {
        let include_patterns = match includes {
            None => None,
            Some(sources) => match compile_patterns(&sources) {
                Ok(ps) => Some(ps),
                Err(e) => {
                    return Err(e);
                },
            },
        };
        let exclude_patterns = match excludes {
            None => None,
            Some(sources) => match compile_patterns(&sources) {
                Ok(ps) => Some(ps),
                Err(e) => {
                    return Err(e);
                },
            },
        };
        Ok(ScanFilter { includes: include_patterns, excludes: exclude_patterns, max_lines })
    }
}

/// Some pattern of the list matches the path.
fn any_match(patterns: &Vec<GlobPattern>, path: &str) -> (b: bool)
    ensures
        b == any_glob_matches(patterns@, path@),
{
    let mut i: usize = 0;
    while i < patterns.len()
        invariant
            0 <= i <= patterns@.len(),
            forall|k: int|
                0 <= k < i ==> !glob_match((#[trigger] patterns@[k]).spec_source(), path@),
        decreases patterns@.len() - i,
    {
        if patterns[i].matches(path) {
            return true;
        }
        i = i + 1;
    }
    false
}

/// Applies the glob stage alone — the include globs, then the
/// exclude globs — so that a scanner can drop a path before it ever
/// reads the file.
pub fn check_path_filters(path: &str, filter: &ScanFilter) -> (r: Result<(), SkipReason>)
    ensures
        r == path_filter_decision(*filter, path@),
{
    match &filter.includes {
        Some(patterns) => {
            if !any_match(patterns, path) {
                return Err(SkipReason::NotIncluded);
            }
        },
        None => {},
    }
    match &filter.excludes {
        Some(patterns) => {
            if any_match(patterns, path) {
                return Err(SkipReason::Excluded);
            }
        },
        None => {},
    }
    Ok(())
}

/// Decides one candidate: applies the include globs, the exclude
/// globs and the line limit in that order, and scores the survivor
/// against the reference.
pub fn evaluate_candidate(path: &str, content: &str, filter: &ScanFilter, reference: &str) -> (r:
    Result<FileMatch, SkipReason>)
    ensures
        r is Ok <==> evaluation(*filter, path@, content@, reference@) is Ok,
        r is Ok ==> {
            let m = r->Ok_0;
            &&& m.path@ == path@
            &&& m.perc_shared == evaluation(*filter, path@, content@, reference@)->Ok_0
            &&& m.perc_shared.wf()
        },
        r is Err ==> r->Err_0 == evaluation(*filter, path@, content@, reference@)->Err_0,
{
    match check_path_filters(path, filter) {
        Err(reason) => {
            return Err(reason);
        },
        Ok(()) => {},
    }
    let n = crate::lines::count_text_lines(content);
    if n == 0 || n > filter.max_lines as usize {
        return Err(SkipReason::LineLimit);
    }
    let perc_shared = crate::diff::get_perc_shared_lines(reference, content);
    Ok(FileMatch { path: path.to_owned(), perc_shared })
}

} // verus!
