//! Structured rendering of one detailed comparison.
//!
//! For the candidate a user picks, the edit script is grouped into
//! change clusters with up to three lines of unchanged context on
//! each side, and every changed line carries an inline sub-line
//! diff.  The grouping and the inline diff come from the `similar`
//! crate; because its inline refinement may fragment a line
//! differently from one call to the next, only per-outcome facts
//! are assumed of the stream, and the verified part turns whatever
//! stream came back into render instructions — change kind,
//! one-based line numbers, emphasized fragments — leaving colors
//! and printing to the presentation layer.

use vstd::prelude::*;

use crate::diff::ChangeKind;
use crate::lines::lemma_line_count_le_len;
use crate::lines::line_count;

verus! {

/// One line of the inline change stream, as the diff reports it:
/// zero-based line indices and `(emphasized, fragment)` pairs that
/// concatenate back to the line text.
pub struct InlineChange {
    /// Zero-based line index on the reference side; absent for a
    /// pure insertion.
    pub old_index: Option<usize>,
    /// Zero-based line index on the candidate side; absent for a
    /// pure deletion.
    pub new_index: Option<usize>,
    /// The line text in fragments; emphasized ones are the actual
    /// sub-line difference.
    pub segments: Vec<(bool, String)>,
    /// The line does not end in a newline and a renderer must add
    /// one.
    pub missing_newline: bool,
}

/// A change touches at least one side, at a line index below that
/// side's line count.
pub open spec fn change_wf(ch: InlineChange, old_lines: nat, new_lines: nat) -> bool {
    &&& (ch.old_index is Some || ch.new_index is Some)
    &&& (ch.old_index is Some ==> ch.old_index->0 < old_lines)
    &&& (ch.new_index is Some ==> ch.new_index->0 < new_lines)
}

/// The change is unchanged context: the line stands in both texts.
pub open spec fn is_context_change(ch: InlineChange) -> bool {
    ch.old_index is Some && ch.new_index is Some
}

/// The shape of one change cluster: it holds at least one changed
/// line, and no more than three unchanged context lines precede the
/// first change or follow the last one.
pub open spec fn cluster_shaped(changes: Seq<InlineChange>) -> bool {
    &&& exists|i: int| 0 <= i < changes.len() && !is_context_change(#[trigger] changes[i])
    &&& (changes.len() >= 4 ==> exists|i: int|
        0 <= i < 4 && !is_context_change(#[trigger] changes[i]))
    &&& (changes.len() >= 4 ==> exists|i: int|
        changes.len() - 4 <= i < changes.len() && !is_context_change(#[trigger] changes[i]))
}

/// Relies on `similar::TextDiff::from_lines`, `grouped_ops` and
/// `iter_inline_changes`.  The line tokens of a text concatenate
/// back to it, so exactly the differing pairs produce a change, and
/// every cluster that the grouping emits keeps at least one changed
/// line: identical texts yield no group, differing texts at least
/// one.  A change carries its zero-based line index on each side it
/// touches — both for an unchanged line, one for an insertion or
/// deletion — with every index below that side's line count, and a
/// cluster is bounded by at most three unchanged context lines on
/// each end (the grouping's context width).  The inline refinement
/// runs under a wall-clock deadline inside `similar` and may
/// fragment a changed line differently from one call to the next,
/// so nothing ties the stream to the two texts alone; the contract
/// states only what holds of every outcome.
#[verifier::external_body]
fn grouped_inline_changes(r: &str, c: &str) -> (out: Vec<Vec<InlineChange>>)
    ensures
        r@ == c@ <==> out@.len() == 0,
        forall|g: int, i: int|
            0 <= g < out@.len() && 0 <= i < out@[g]@.len() ==> change_wf(
                out@[g]@[i],
                line_count(r@),
                line_count(c@),
            ),
        forall|g: int| 0 <= g < out@.len() ==> cluster_shaped((#[trigger] out@[g])@),
{
    let diff = similar::TextDiff::from_lines(r, c);
    let mut out = Vec::new();
    for group in diff.grouped_ops(3) {
        let mut changes = Vec::new();
        for op in &group {
            for ch in diff.iter_inline_changes(op) {
                let segments = ch.iter_strings_lossy().map(|(e, v)| (e, v.into_owned())).collect();
                let (old_index, new_index) = (ch.old_index(), ch.new_index());
                changes.push(InlineChange { old_index, new_index, segments, missing_newline: ch.missing_newline() });
            }
        }
        out.push(changes);
    }
    out
}

/// One instruction for the presentation layer: what kind of line to
/// draw, under which one-based line numbers, from which fragments.
pub struct RenderInstruction {
    /// Whether the line is shared, inserted or deleted.
    pub kind: ChangeKind,
    /// One-based line number on the reference side; absent for a
    /// pure insertion.
    pub old_line: Option<usize>,
    /// One-based line number on the candidate side; absent for a
    /// pure deletion.
    pub new_line: Option<usize>,
    /// The line text in `(emphasized, fragment)` pairs.
    pub segments: Vec<(bool, String)>,
    /// The line does not end in a newline and a renderer must add
    /// one.
    pub missing_newline: bool,
}

/// The detailed comparison of one pair: either the distinct
/// identical signal, or the non-empty change clusters, to be drawn
/// with a divider between consecutive clusters.
pub enum DiffReport {
    /// The edit script holds no change at all.
    Identical,
    /// The change clusters, in text order.
    Groups(Vec<Vec<RenderInstruction>>),
}

/// The change kind that a change's line indices encode: both sides
/// shared, reference side only deleted, candidate side only
/// inserted.
pub open spec fn kind_of(ch: InlineChange) -> ChangeKind {
    if ch.old_index is Some && ch.new_index is Some {
        ChangeKind::Equal
    } else if ch.old_index is Some {
        ChangeKind::Delete
    } else {
        ChangeKind::Insert
    }
}

/// Zero-based index to one-based line number.
pub open spec fn line_of(idx: Option<usize>) -> Option<usize> {
    match idx {
        None => None,
        Some(i) => Some((i + 1) as usize),
    }
}

/// The instruction that renders one inline change.
pub open spec fn instruction_of(ch: InlineChange) -> RenderInstruction {
    RenderInstruction {
        kind: kind_of(ch),
        old_line: line_of(ch.old_index),
        new_line: line_of(ch.new_index),
        segments: ch.segments,
        missing_newline: ch.missing_newline,
    }
}

/// The report renders exactly the given grouped change stream.
pub open spec fn report_matches(rep: DiffReport, groups: Seq<Vec<InlineChange>>) -> bool {
    match rep {
        DiffReport::Identical => groups.len() == 0,
        DiffReport::Groups(gs) => {
            &&& groups.len() > 0
            &&& gs@.len() == groups.len()
            &&& forall|g: int|
                0 <= g < groups.len() ==> (#[trigger] gs@[g])@ == groups[g]@.map_values(
                    |ch: InlineChange| instruction_of(ch),
                )
        },
    }
}

/// An instruction drawn from a well-formed change: it touches at
/// least one side, its kind agrees with the sides it touches, and
/// its line numbers are one-based and within that side's text.
pub open spec fn instruction_wf(ins: RenderInstruction, old_lines: nat, new_lines: nat) -> bool {
    &&& (ins.old_line is Some || ins.new_line is Some)
    &&& ins.kind == (if ins.old_line is Some && ins.new_line is Some {
        ChangeKind::Equal
    } else if ins.old_line is Some {
        ChangeKind::Delete
    } else {
        ChangeKind::Insert
    })
    &&& (ins.old_line is Some ==> 1 <= ins.old_line->0 <= old_lines)
    &&& (ins.new_line is Some ==> 1 <= ins.new_line->0 <= new_lines)
}

/// The shape of one rendered cluster: it holds at least one
/// non-context instruction, and no more than three unchanged
/// context lines precede the first change or follow the last one.
pub open spec fn rendered_cluster_shaped(ins: Seq<RenderInstruction>) -> bool {
    &&& exists|i: int| 0 <= i < ins.len() && (#[trigger] ins[i]).kind != ChangeKind::Equal
    &&& (ins.len() >= 4 ==> exists|i: int|
        0 <= i < 4 && (#[trigger] ins[i]).kind != ChangeKind::Equal)
    &&& (ins.len() >= 4 ==> exists|i: int|
        ins.len() - 4 <= i < ins.len() && (#[trigger] ins[i]).kind != ChangeKind::Equal)
}

/// Every cluster of the report is made of well-formed instructions,
/// holds a changed line within three lines of context at each end,
/// and a clustered report holds at least one cluster.
pub open spec fn report_wf(rep: DiffReport, old_lines: nat, new_lines: nat) -> bool {
    match rep {
        DiffReport::Identical => true,
        DiffReport::Groups(gs) => {
            &&& gs@.len() > 0
            &&& forall|g: int, i: int|
                0 <= g < gs@.len() && 0 <= i < gs@[g]@.len() ==> instruction_wf(
                    #[trigger] gs@[g]@[i],
                    old_lines,
                    new_lines,
                )
            &&& forall|g: int| 0 <= g < gs@.len() ==> rendered_cluster_shaped((#[trigger] gs@[g])@)
        },
    }
}

/// Turns one change cluster into render instructions.
fn render_group(group: Vec<InlineChange>) -> (out: Vec<RenderInstruction>)
    requires
        forall|i: int|
            0 <= i < group@.len() ==> ((#[trigger] group@[i]).old_index is Some
                ==> group@[i].old_index->0 < usize::MAX) && (group@[i].new_index is Some
                ==> group@[i].new_index->0 < usize::MAX),
    ensures
        out@ == group@.map_values(|ch: InlineChange| instruction_of(ch)),
{
    let ghost orig = group@;
    let mut remaining = group;
    let mut out: Vec<RenderInstruction> = Vec::new();
    let ghost mut k: int = 0;
    while remaining.len() > 0
        invariant
            0 <= k <= orig.len(),
            remaining@ == orig.skip(k),
            out@.len() == k,
            forall|i: int|
                0 <= i < orig.len() ==> ((#[trigger] orig[i]).old_index is Some ==> orig[i].old_index->0
                    < usize::MAX) && (orig[i].new_index is Some ==> orig[i].new_index->0
                    < usize::MAX),
            forall|i: int| 0 <= i < k ==> out@[i] == instruction_of(#[trigger] orig[i]),
        decreases remaining@.len(),
    {
        let ch = remaining.remove(0);
        proof {
            assert(ch == orig[k]);
            assert(orig.skip(k).remove(0) =~= orig.skip(k + 1));
        }
        let kind = if ch.old_index.is_some() && ch.new_index.is_some() {
            ChangeKind::Equal
        } else if ch.old_index.is_some() {
            ChangeKind::Delete
        } else {
            ChangeKind::Insert
        };
        let old_line = match ch.old_index {
            Some(i) => Some(i + 1),
            None => None,
        };
        let new_line = match ch.new_index {
            Some(i) => Some(i + 1),
            None => None,
        };
        out.push(
            RenderInstruction {
                kind,
                old_line,
                new_line,
                segments: ch.segments,
                missing_newline: ch.missing_newline,
            },
        );
        proof {
            k = k + 1;
        }
    }
    proof {
        assert(out@ =~= orig.map_values(|ch: InlineChange| instruction_of(ch)));
    }
    out
}

/// Turns a grouped inline change stream into a report: render
/// instructions cluster by cluster, or the identical signal where
/// there is no cluster at all.
pub fn build_report(groups: Vec<Vec<InlineChange>>) -> (rep: DiffReport)
    requires
        forall|g: int, i: int|
            0 <= g < groups@.len() && 0 <= i < (#[trigger] groups@[g])@.len() ==> ((
            #[trigger] groups@[g]@[i]).old_index is Some ==> groups@[g]@[i].old_index->0
                < usize::MAX) && (groups@[g]@[i].new_index is Some ==> groups@[g]@[i].new_index->0
                < usize::MAX),
    ensures
        report_matches(rep, groups@),
        rep is Identical <==> groups@.len() == 0,
{
    if groups.len() == 0 {
        return DiffReport::Identical;
    }
    let ghost orig = groups@;
    let mut remaining = groups;
    let mut rendered: Vec<Vec<RenderInstruction>> = Vec::new();
    let ghost mut k: int = 0;
    while remaining.len() > 0
        invariant
            0 <= k <= orig.len(),
            remaining@ == orig.skip(k),
            rendered@.len() == k,
            forall|g: int, i: int|
                0 <= g < orig.len() && 0 <= i < (#[trigger] orig[g])@.len() ==> ((
                #[trigger] orig[g]@[i]).old_index is Some ==> orig[g]@[i].old_index->0
                    < usize::MAX) && (orig[g]@[i].new_index is Some ==> orig[g]@[i].new_index->0
                    < usize::MAX),
            forall|g: int|
                0 <= g < k ==> (#[trigger] rendered@[g])@ == orig[g]@.map_values(
                    |ch: InlineChange| instruction_of(ch),
                ),
        decreases remaining@.len(),
    {
        let group = remaining.remove(0);
        proof {
            assert(group == orig[k]);
            assert(orig.skip(k).remove(0) =~= orig.skip(k + 1));
        }
        let instructions = render_group(group);
        rendered.push(instructions);
        proof {
            k = k + 1;
        }
    }
    DiffReport::Groups(rendered)
}

/// Computes the detailed comparison of a reference/candidate pair:
/// the grouped, inline-highlighted change clusters, or the identical
/// signal when the texts do not differ at all.
///
/// The clusters come from the outside diff, which may fragment a
/// changed line differently from one call to the next, so the
/// contract promises their shape, not their content: the identical
/// signal comes exactly for identical texts, every instruction is
/// well formed, and every cluster holds a changed line within three
/// lines of context at each end.  [`build_report`] carries the
/// exact relation between the change stream and the instructions.
pub fn detailed_diff(ref_lines: &str, comp_lines: &str) -> (rep: DiffReport)
    ensures
        report_wf(rep, line_count(ref_lines@), line_count(comp_lines@)),
        rep is Identical <==> ref_lines@ == comp_lines@,
{
    let _ref_len = ref_lines.unicode_len();
    let _comp_len = comp_lines.unicode_len();
    proof {
        lemma_line_count_le_len(ref_lines@);
        lemma_line_count_le_len(comp_lines@);
    }
    let groups = grouped_inline_changes(ref_lines, comp_lines);
    let ghost stream = groups@;
    let ghost old_lines = line_count(ref_lines@);
    let ghost new_lines = line_count(comp_lines@);
    let rep = build_report(groups);
    proof {
        if rep is Groups {
            let gs = rep->Groups_0;
            assert forall|g: int, i: int|
                0 <= g < gs@.len() && 0 <= i < gs@[g]@.len() implies instruction_wf(
                #[trigger] gs@[g]@[i],
                old_lines,
                new_lines,
            ) by {
                let ch = stream[g]@[i];
                assert(change_wf(ch, old_lines, new_lines));
                assert(gs@[g]@[i] == instruction_of(ch));
            }
            assert forall|g: int| 0 <= g < gs@.len() implies rendered_cluster_shaped(
                (#[trigger] gs@[g])@,
            ) by {
                let cluster = stream[g]@;
                assert(cluster_shaped(cluster));
                let w0 = choose|i: int|
                    0 <= i < cluster.len() && !is_context_change(#[trigger] cluster[i]);
                assert(gs@[g]@[w0] == instruction_of(cluster[w0]));
                assert(gs@[g]@[w0].kind != ChangeKind::Equal);
                if gs@[g]@.len() >= 4 {
                    let w1 = choose|i: int|
                        0 <= i < 4 && !is_context_change(#[trigger] cluster[i]);
                    assert(gs@[g]@[w1] == instruction_of(cluster[w1]));
                    assert(gs@[g]@[w1].kind != ChangeKind::Equal);
                    let w2 = choose|i: int|
                        cluster.len() - 4 <= i < cluster.len() && !is_context_change(
                            #[trigger] cluster[i],
                        );
                    assert(gs@[g]@[w2] == instruction_of(cluster[w2]));
                    assert(gs@[g]@[w2].kind != ChangeKind::Equal);
                }
            }
        }
    }
    rep
}

} // verus!
