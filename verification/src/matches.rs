//! Ranked search results.
//!
//! Scored candidates arrive in scan order, possibly produced out of
//! order by parallel workers but collected into one sequence.  Ranking
//! sorts them by score, descending, keeping the scan order of equal
//! scores, and truncates to the requested result count.  The whole
//! ranking is a function of the input sequence alone, so a repeated
//! run over unchanged candidates yields the identical match set.

use vstd::prelude::*;

use crate::score::Score;
use crate::score::lemma_score_lt_trans;

verus! {

/// Result count used when the requested one is out of range.
pub const DEFAULT_RESULT_COUNT: u8 = 10;

/// Largest accepted result count.
pub const MAX_RESULT_COUNT: u8 = 200;

/// One scored candidate file.
#[derive(Debug, Clone, PartialEq)]
pub struct FileMatch {
    /// Path of the candidate, as handed to the scan.
    pub path: String,
    /// Fraction of reference lines the candidate shares.
    pub perc_shared: Score,
}

/// The first match does not score below the second.
pub open spec fn ge_score(a: FileMatch, b: FileMatch) -> bool {
    !a.perc_shared.spec_lt(b.perc_shared)
}

/// Scores never increase along the sequence.
pub open spec fn sorted_desc(s: Seq<FileMatch>) -> bool {
    forall|i: int, j: int| 0 <= i < j < s.len() ==> ge_score(s[i], s[j])
}

/// Every score in the sequence is a well-formed fraction.
pub open spec fn wf_scores(s: Seq<FileMatch>) -> bool {
    forall|i: int| 0 <= i < s.len() ==> (#[trigger] s[i]).perc_shared.wf()
}

/// Stable descending insertion: `x` goes behind every element whose
/// score is not below its own, so equal scores keep their order.
pub open spec fn insert_desc(s: Seq<FileMatch>, x: FileMatch) -> Seq<FileMatch>
    decreases s.len(),
{
    if s.len() == 0 {
        seq![x]
    } else if s[0].perc_shared.spec_lt(x.perc_shared) {
        seq![x] + s
    } else {
        seq![s[0]] + insert_desc(s.drop_first(), x)
    }
}

/// Stable insertion sort by score, descending.
pub open spec fn sort_desc(s: Seq<FileMatch>) -> Seq<FileMatch>
    decreases s.len(),
{
    if s.len() == 0 {
        Seq::empty()
    } else {
        insert_desc(sort_desc(s.drop_last()), s.last())
    }
}

/// A requested count of zero, or one beyond [`MAX_RESULT_COUNT`],
/// falls back to [`DEFAULT_RESULT_COUNT`].
pub open spec fn clamped_count(requested: u8) -> u8 {
    if requested == 0 || requested > MAX_RESULT_COUNT {
        DEFAULT_RESULT_COUNT
    } else {
        requested
    }
}

/// The ranking of scored candidates `s`: sorted by score descending,
/// scan order kept among equal scores, truncated to the clamped
/// result count.
pub open spec fn ranked(s: Seq<FileMatch>, requested: u8) -> Seq<FileMatch> {
    let sorted = sort_desc(s);
    let cap = clamped_count(requested) as int;
    if sorted.len() <= cap {
        sorted
    } else {
        sorted.take(cap)
    }
}

/// The ranked, size-bounded result of one search.
#[derive(Debug, Clone, PartialEq)]
pub struct FileMatches(pub Vec<FileMatch>);

impl FileMatches {
    /// The match set invariant: sorted by score descending, scores
    /// in `[0, 1]`, and no more entries than the largest accepted
    /// result count.
    pub open spec fn wf(self) -> bool {
        &&& sorted_desc(self.0@)
        &&& wf_scores(self.0@)
        &&& self.0@.len() <= MAX_RESULT_COUNT
    }
}

/// Inserting at the first position whose score is strictly below the
/// new one is exactly the stable descending insertion.
proof fn lemma_insert_desc_at(s: Seq<FileMatch>, x: FileMatch, j: int)
    requires
        0 <= j <= s.len(),
        forall|i: int| 0 <= i < j ==> !(#[trigger] s[i]).perc_shared.spec_lt(x.perc_shared),
        j < s.len() ==> s[j].perc_shared.spec_lt(x.perc_shared),
    ensures
        insert_desc(s, x) == s.insert(j, x),
    decreases j,
{
    if s.len() == 0 {
        assert(insert_desc(s, x) =~= s.insert(0, x));
    } else if j == 0 {
        assert(insert_desc(s, x) =~= s.insert(0, x));
    } else {
        lemma_insert_desc_at(s.drop_first(), x, j - 1);
        assert(seq![s[0]] + s.drop_first().insert(j - 1, x) =~= s.insert(j, x));
    }
}

/// Inserting at such a position keeps a sorted sequence sorted.
proof fn lemma_sorted_insert_point(s: Seq<FileMatch>, x: FileMatch, j: int)
    requires
        sorted_desc(s),
        wf_scores(s),
        x.perc_shared.wf(),
        0 <= j <= s.len(),
        forall|i: int| 0 <= i < j ==> !(#[trigger] s[i]).perc_shared.spec_lt(x.perc_shared),
        j < s.len() ==> s[j].perc_shared.spec_lt(x.perc_shared),
    ensures
        sorted_desc(s.insert(j, x)),
{
    let t = s.insert(j, x);
    assert forall|a: int, b: int| 0 <= a < b < t.len() implies ge_score(t[a], t[b]) by {
        if a < j && b == j {
            assert(t[a] == s[a]);
        } else if a == j && b > j {
            assert(t[b] == s[b - 1]);
            if x.perc_shared.spec_lt(s[b - 1].perc_shared) {
                if j < b - 1 {
                    assert(ge_score(s[j], s[b - 1]));
                }
                lemma_score_lt_trans(s[j].perc_shared, x.perc_shared, s[b - 1].perc_shared);
            }
        } else if a < j && b > j {
            assert(t[a] == s[a] && t[b] == s[b - 1]);
            if a < b - 1 {
                assert(ge_score(s[a], s[b - 1]));
            }
        } else if a > j {
            assert(t[a] == s[a - 1] && t[b] == s[b - 1]);
        } else {
            assert(t[a] == s[a] && t[b] == s[b]);
        }
    }
}

/// Returns the requested result count, or the default where the
/// request is zero or beyond the accepted maximum.
pub fn clamp_result_count(requested: u8) -> (count: u8)
    ensures
        count == clamped_count(requested),
        1 <= count <= MAX_RESULT_COUNT,
{
    if requested == 0 || requested > MAX_RESULT_COUNT {
        DEFAULT_RESULT_COUNT
    } else {
        requested
    }
}

/// Ranks scored candidates: sorts by score descending — stably, so
/// candidates with equal scores keep their scan order — and keeps
/// the first `requested` (clamped) entries.
pub fn rank_matches(found: Vec<FileMatch>, requested: u8) -> (ms: FileMatches)
    requires
        wf_scores(found@),
    ensures
        ms.0@ == ranked(found@, requested),
        ms.wf(),
{
    let ghost orig = found@;
    let mut remaining = found;
    let mut sorted_v: Vec<FileMatch> = Vec::new();
    let ghost mut k: int = 0;
    while remaining.len() > 0
        invariant
            0 <= k <= orig.len(),
            remaining@ == orig.skip(k),
            sorted_v@ == sort_desc(orig.take(k)),
            sorted_desc(sorted_v@),
            wf_scores(sorted_v@),
            wf_scores(orig),
        decreases remaining.len(),
    {
        let x = remaining.remove(0);
        proof {
            assert(x == orig[k]);
            assert(orig.skip(k).remove(0) =~= orig.skip(k + 1));
        }
        let mut j: usize = 0;
        while j < sorted_v.len() && !sorted_v[j].perc_shared.lt(&x.perc_shared)
            invariant
                0 <= j <= sorted_v@.len(),
                forall|i: int|
                    0 <= i < j ==> !(#[trigger] sorted_v@[i]).perc_shared.spec_lt(x.perc_shared),
            decreases sorted_v@.len() - j,
        {
            j = j + 1;
        }
        proof {
            lemma_insert_desc_at(sorted_v@, x, j as int);
            lemma_sorted_insert_point(sorted_v@, x, j as int);
            assert(orig.take(k + 1).drop_last() =~= orig.take(k));
            assert(orig.take(k + 1).last() == orig[k]);
            assert(wf_scores(orig.take(k + 1)));
        }
        sorted_v.insert(j, x);
        proof {
            k = k + 1;
        }
    }
    proof {
        assert(orig.take(orig.len() as int) =~= orig);
    }
    let cap = clamp_result_count(requested) as usize;
    if sorted_v.len() > cap {
        sorted_v.truncate(cap);
        proof {
            assert(sorted_v@ == sort_desc(orig).take(cap as int));
        }
    }
    FileMatches(sorted_v)
}

/// The ranking is a function of the scored candidates alone: a
/// repeated search over an unchanged candidate sequence yields the
/// identical match set, tie order included.
pub proof fn lemma_ranking_deterministic(a: Seq<FileMatch>, b: Seq<FileMatch>, requested: u8)
    requires
        a == b,
    ensures
        ranked(a, requested) == ranked(b, requested),
{
}

/// The position where the stable descending insertion places a new
/// element: behind every element whose score is not below the new
/// one.
spec fn insert_point(s: Seq<FileMatch>, x: FileMatch) -> int
    decreases s.len(),
{
    if s.len() == 0 {
        0
    } else if s[0].perc_shared.spec_lt(x.perc_shared) {
        0
    } else {
        1 + insert_point(s.drop_first(), x)
    }
}

/// The insertion point splits the sequence into a prefix that does
/// not score below the new element and a remainder whose first
/// element does.
proof fn lemma_insert_point_props(s: Seq<FileMatch>, x: FileMatch)
    ensures
        0 <= insert_point(s, x) <= s.len(),
        forall|i: int|
            0 <= i < insert_point(s, x) ==> !(#[trigger] s[i]).perc_shared.spec_lt(x.perc_shared),
        insert_point(s, x) < s.len() ==> s[insert_point(s, x)].perc_shared.spec_lt(x.perc_shared),
    decreases s.len(),
{
    if s.len() > 0 && !s[0].perc_shared.spec_lt(x.perc_shared) {
        lemma_insert_point_props(s.drop_first(), x);
        assert forall|i: int| 0 <= i < insert_point(s, x) implies !(#[trigger] s[i]).perc_shared.spec_lt(
            x.perc_shared,
        ) by {
            if i > 0 {
                assert(s[i] == s.drop_first()[i - 1]);
            }
        }
    }
}

/// The stable descending insertion inserts, literally: the result
/// is the sequence with the new element at the insertion point.
proof fn lemma_insert_desc_is_insert(s: Seq<FileMatch>, x: FileMatch)
    ensures
        insert_desc(s, x) == s.insert(insert_point(s, x), x),
{
    lemma_insert_point_props(s, x);
    lemma_insert_desc_at(s, x, insert_point(s, x));
}

/// Sorting sorts: the result of the stable sort is sorted by score,
/// descending, and keeps every score well formed.
pub proof fn lemma_sort_desc_sorted(s: Seq<FileMatch>)
    requires
        wf_scores(s),
    ensures
        sorted_desc(sort_desc(s)),
        wf_scores(sort_desc(s)),
        sort_desc(s).len() == s.len(),
    decreases s.len(),
{
    if s.len() > 0 {
        let b = s.drop_last();
        let x = s.last();
        assert(wf_scores(b));
        lemma_sort_desc_sorted(b);
        let t = sort_desc(b);
        lemma_insert_point_props(t, x);
        lemma_insert_desc_is_insert(t, x);
        lemma_sorted_insert_point(t, x, insert_point(t, x));
        assert(wf_scores(t.insert(insert_point(t, x), x)));
    }
}

/// The stable descending insertion adds exactly the new element.
proof fn lemma_insert_desc_multiset(s: Seq<FileMatch>, x: FileMatch)
    ensures
        insert_desc(s, x).to_multiset() == s.to_multiset().insert(x),
{
    broadcast use vstd::seq_lib::group_to_multiset_ensures;

    let j = insert_point(s, x);
    lemma_insert_point_props(s, x);
    lemma_insert_desc_is_insert(s, x);
    vstd::seq_lib::to_multiset_insert(s, j, x);
}

/// Sorting permutes: the sorted sequence holds exactly the scored
/// candidates it was given.
pub proof fn lemma_sort_desc_permutes(s: Seq<FileMatch>)
    ensures
        sort_desc(s).to_multiset() == s.to_multiset(),
    decreases s.len(),
{
    broadcast use vstd::seq_lib::group_to_multiset_ensures;

    if s.len() > 0 {
        let b = s.drop_last();
        let x = s.last();
        lemma_sort_desc_permutes(b);
        lemma_insert_desc_multiset(sort_desc(b), x);
        assert(b.push(x) =~= s);
    }
}

/// The predicate `the match scores exactly k`.
pub open spec fn with_score(k: Score) -> spec_fn(FileMatch) -> bool {
    |m: FileMatch| m.perc_shared == k
}

/// Inserting into a sorted sequence appends within the new
/// element's own score class and leaves every other class alone.
proof fn lemma_insert_desc_filter(s: Seq<FileMatch>, x: FileMatch, k: Score)
    requires
        sorted_desc(s),
        wf_scores(s),
        x.perc_shared.wf(),
    ensures
        insert_desc(s, x).filter(with_score(k)) == s.filter(with_score(k)) + (if x.perc_shared
            == k {
            seq![x]
        } else {
            Seq::<FileMatch>::empty()
        }),
{
    broadcast use vstd::seq_lib::group_filter_ensures;

    let p = with_score(k);
    let j = insert_point(s, x);
    lemma_insert_point_props(s, x);
    lemma_insert_desc_is_insert(s, x);
    let head = s.take(j);
    let tail = s.skip(j);
    assert(s.insert(j, x) =~= head + (seq![x] + tail));
    Seq::filter_distributes_over_add(head, seq![x] + tail, p);
    Seq::filter_distributes_over_add(seq![x], tail, p);
    assert(s =~= head + tail);
    Seq::filter_distributes_over_add(head, tail, p);
    reveal_with_fuel(Seq::filter, 2);
    assert(seq![x].drop_last() =~= Seq::<FileMatch>::empty());
    if x.perc_shared == k {
        assert(seq![x].filter(p) =~= seq![x]);
        assert forall|i: int| 0 <= i < tail.len() implies !p(tail[i]) by {
            assert(tail[i] == s[j + i]);
            if j < j + i {
                assert(ge_score(s[j], s[j + i]));
            }
            if tail[i].perc_shared == k {
                if i > 0 {
                    crate::score::lemma_score_lt_of_le_lt(
                        s[j + i].perc_shared,
                        s[j].perc_shared,
                        x.perc_shared,
                    );
                }
                assert(s[j + i].perc_shared.spec_lt(x.perc_shared));
                assert(false);
            }
        }
        tail.lemma_all_neg_filter_empty(p);
        assert(insert_desc(s, x).filter(p) =~= s.filter(p) + seq![x]);
    } else {
        assert(seq![x].filter(p) =~= Seq::<FileMatch>::empty());
        assert(insert_desc(s, x).filter(p) =~= s.filter(p));
    }
}

/// Ties keep their scan order: for every score, the matches holding
/// exactly that score come out of the sort in the order they went
/// in.
pub proof fn lemma_sort_desc_stable(s: Seq<FileMatch>, k: Score)
    requires
        wf_scores(s),
    ensures
        sort_desc(s).filter(with_score(k)) == s.filter(with_score(k)),
    decreases s.len(),
{
    broadcast use vstd::seq_lib::group_filter_ensures;

    if s.len() == 0 {
        assert(sort_desc(s).filter(with_score(k)) =~= s.filter(with_score(k)));
    } else {
        let b = s.drop_last();
        let x = s.last();
        assert(wf_scores(b));
        lemma_sort_desc_stable(b, k);
        lemma_sort_desc_sorted(b);
        lemma_insert_desc_filter(sort_desc(b), x, k);
        assert(b.push(x) =~= s);
        Seq::lemma_filter_push(b, x, with_score(k));
        if x.perc_shared == k {
            assert(b.filter(with_score(k)) + seq![x] =~= s.filter(with_score(k)));
        } else {
            assert(b.filter(with_score(k)) + Seq::<FileMatch>::empty() =~= s.filter(
                with_score(k),
            ));
        }
    }
}

} // verus!
