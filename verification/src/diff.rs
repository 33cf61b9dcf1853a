//! Shared-line counting and scoring.
//!
//! The line-level edit script itself comes from the `similar` crate:
//! its change list is named by the uninterpreted [`line_diff_tags`],
//! and everything after the call — counting the lines tagged equal,
//! building the score fraction — is verified against that name.

use vstd::prelude::*;

use crate::lines::line_count;
use crate::lines::lemma_ref_le_line_count;
use crate::lines::lemma_ref_line_count_pos;
use crate::lines::ref_line_count;
use crate::score::Score;

verus! {

/// How one line of an edit script relates the two texts.
#[derive(Clone, Copy, PartialEq, Eq, Structural, Debug)]
pub enum ChangeKind {
    /// The line occurs in both texts.
    Equal,
    /// The line occurs only in the candidate text.
    Insert,
    /// The line occurs only in the reference text.
    Delete,
}

/// The tags of the line-level edit script that `similar` computes for
/// a reference/candidate pair, in script order.
pub uninterp spec fn line_diff_tags(r: Seq<char>, c: Seq<char>) -> Seq<ChangeKind>;

/// Number of lines tagged equal in a change list.
pub open spec fn equal_count(tags: Seq<ChangeKind>) -> nat
    decreases tags.len(),
{
    if tags.len() == 0 {
        0
    } else {
        equal_count(tags.drop_last()) + (if tags.last() is Equal {
            1nat
        } else {
            0nat
        })
    }
}

/// Relies on `similar::TextDiff::from_lines` and `iter_all_changes`:
/// the change list is a function of the two texts alone; every equal
/// line pairs one line token of each text, so their count is bounded
/// by both token counts; identical texts diff to all-equal scripts,
/// one change per line token.
#[verifier::external_body]
fn diff_change_tags(r: &str, c: &str) -> (out: Vec<ChangeKind>)
    ensures
        out@ == line_diff_tags(r@, c@),
        equal_count(out@) <= line_count(r@),
        equal_count(out@) <= line_count(c@),
        r@ == c@ ==> equal_count(out@) == line_count(r@),
{
    let diff = similar::TextDiff::from_lines(r, c);
    diff.iter_all_changes()
        .map(|change| match change.tag() {
            similar::ChangeTag::Equal => ChangeKind::Equal,
            similar::ChangeTag::Insert => ChangeKind::Insert,
            similar::ChangeTag::Delete => ChangeKind::Delete,
        })
        .collect()
}

/// The score of candidate `c` against reference `r`: shared lines
/// over reference lines, with the numerator clamped to the
/// denominator so the fraction never leaves `[0, 1]`.
pub open spec fn score_of(r: Seq<char>, c: Seq<char>) -> Score {
    let shared = equal_count(line_diff_tags(r, c));
    let total = ref_line_count(r);
    Score {
        num: (if shared <= total {
            shared
        } else {
            total
        }) as usize,
        den: total as usize,
    }
}

/// Returns the number of lines of `ref_lines` that the line-level
/// diff marks as shared with `comp_lines`.
///
/// The count never exceeds the line count of either text, and
/// identical texts share every line.
pub fn get_num_shared_lines(ref_lines: &str, comp_lines: &str) -> (n: usize)
    ensures
        n == equal_count(line_diff_tags(ref_lines@, comp_lines@)),
        n <= line_count(ref_lines@),
        n <= line_count(comp_lines@),
        ref_lines@ == comp_lines@ ==> n == line_count(ref_lines@),
{
    let tags = diff_change_tags(ref_lines, comp_lines);
    let mut n: usize = 0;
    let mut i: usize = 0;
    while i < tags.len()
        invariant
            i <= tags.len(),
            n == equal_count(tags@.take(i as int)),
            n <= i,
        decreases tags.len() - i,
    {
        proof {
            assert(tags@.take(i as int + 1).drop_last() =~= tags@.take(i as int));
            assert(tags@.take(i as int + 1).last() == tags@[i as int]);
        }
        if matches!(tags[i], ChangeKind::Equal) {
            n = n + 1;
        }
        i = i + 1;
    }
    proof {
        assert(tags@.take(tags@.len() as int) =~= tags@);
    }
    n
}

/// Returns the fraction of lines of `ref_lines` that also exist in
/// `comp_lines`: shared lines over the terminator-adjusted reference
/// line count.
///
/// The result is always in `[0, 1]`, and a non-empty reference
/// compared against itself scores exactly one.  A reference with no
/// content degrades to zero over a denominator of one rather than a
/// division by zero.
pub fn get_perc_shared_lines(ref_lines: &str, comp_lines: &str) -> (s: Score)
    ensures
        s == score_of(ref_lines@, comp_lines@),
        s.wf(),
        ref_lines@ == comp_lines@ && ref_lines@.len() > 0 ==> s.is_one(),
        ref_lines@.len() == 0 ==> s.is_zero(),
{
    let num_shared = get_num_shared_lines(ref_lines, comp_lines);
    let num_ref_lines = crate::lines::count_ref_lines(ref_lines);
    proof {
        lemma_ref_line_count_pos(ref_lines@);
        if ref_lines@.len() > 0 {
            lemma_ref_le_line_count(ref_lines@);
        }
    }
    let num = if num_shared <= num_ref_lines {
        num_shared
    } else {
        num_ref_lines
    };
    Score { num, den: num_ref_lines }
}

} // verus!
