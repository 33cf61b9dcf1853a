//! Glob patterns.
//!
//! Compilation and matching are done by the `glob` crate.  Both are
//! deterministic in the pattern's source text, so they are named by
//! the uninterpreted [`glob_compiles`] and [`glob_match`], and every
//! compiled pattern carries its source text so that contracts can
//! speak about what it matches.

use vstd::prelude::*;

verus! {

/// Whether the glob pattern written `pattern` matches `path`, with
/// the glob crate's default match options.
pub uninterp spec fn glob_match(pattern: Seq<char>, path: Seq<char>) -> bool;

/// Whether `pattern` is a well-formed glob pattern.
pub uninterp spec fn glob_compiles(pattern: Seq<char>) -> bool;

#[verifier::external_type_specification]
#[verifier::external_body]
pub struct ExGlobPattern(glob::Pattern);

/// A malformed glob pattern: the offending source text, and the
/// position and description that the glob crate reports.
#[derive(Debug, Clone, PartialEq)]
pub struct GlobError {
    /// The pattern source that failed to compile.
    pub pattern: String,
    /// Character position of the offending syntax.
    pub pos: usize,
    /// Description of the offence.
    pub msg: String,
}

/// A compiled glob pattern, together with the source text it was
/// compiled from.
pub struct GlobPattern {
    source: String,
    compiled: glob::Pattern,
}

impl GlobPattern {
    /// The pattern's source text.
    pub closed spec fn spec_source(&self) -> Seq<char> {
        self.source@
    }

    /// Relies on `glob::Pattern::new`: it accepts exactly the
    /// well-formed patterns, deterministically in the source text.
    #[verifier::external_body]
    pub fn new(pattern: &str) -> (r: Result<GlobPattern, GlobError>)
        ensures
            r is Ok <==> glob_compiles(pattern@),
            r is Ok ==> r->Ok_0.spec_source() == pattern@,
            r is Err ==> r->Err_0.pattern@ == pattern@,
    {
        match glob::Pattern::new(pattern) {
            Ok(compiled) => Ok(GlobPattern { source: pattern.to_owned(), compiled }),
            Err(e) => Err(GlobError { pattern: pattern.to_owned(), pos: e.pos, msg: e.msg.to_owned() }),
        }
    }

    /// Relies on `glob::Pattern::matches`: deterministic in the
    /// pattern's source text and the matched path.
    #[verifier::external_body]
    pub fn matches(&self, path: &str) -> (r: bool)
        ensures
            r == glob_match(self.spec_source(), path@),
    {
        self.compiled.matches(path)
    }

    /// The pattern's source text.
    pub fn source(&self) -> (r: &str)
        ensures
            r@ == self.spec_source(),
    {
        self.source.as_str()
    }
}

} // verus!
