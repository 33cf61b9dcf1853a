//! Table rendering of a match set.
//!
//! Every row is built here, verified character by character: the
//! path, a proportion bar of `round(score * 10)` plus signs, and the
//! percentage with one decimal digit.  Only the final column fitting
//! is done by the `term_grid` crate, whose output is named by the
//! uninterpreted [`grid_text`].

use vstd::prelude::*;

use crate::matches::FileMatch;
use crate::matches::FileMatches;
use crate::matches::wf_scores;
use vstd::string::StrSliceExecFns;
use vstd::string::StringExecFns;

verus! {

/// The decimal digit character for `d` in `0 ..= 9`.
pub open spec fn digit_char(d: int) -> char {
    if d == 0 {
        '0'
    } else if d == 1 {
        '1'
    } else if d == 2 {
        '2'
    } else if d == 3 {
        '3'
    } else if d == 4 {
        '4'
    } else if d == 5 {
        '5'
    } else if d == 6 {
        '6'
    } else if d == 7 {
        '7'
    } else if d == 8 {
        '8'
    } else {
        '9'
    }
}

/// The decimal digits of `n`, most significant first.
pub open spec fn dec_digits(n: int) -> Seq<char>
    decreases n,
{
    if n < 10 {
        seq![digit_char(n)]
    } else {
        dec_digits(n / 10).push(digit_char(n % 10))
    }
}

/// `n` repetitions of `c`.
pub open spec fn char_repeat(c: char, n: int) -> Seq<char> {
    Seq::new(n as nat, |i: int| c)
}

/// Tenths of a percent rendered with one decimal digit and a percent
/// sign: `985` becomes `98.5%`.
pub open spec fn percent_chars(deci: int) -> Seq<char> {
    dec_digits(deci / 10) + seq!['.'] + seq![digit_char(deci % 10)] + seq!['%']
}

/// The three cell texts of one table row: path, proportion bar,
/// percentage.
pub open spec fn row_of(m: FileMatch) -> (Seq<char>, Seq<char>, Seq<char>) {
    (
        m.path@,
        char_repeat('+', m.perc_shared.spec_bar_width()),
        percent_chars(m.perc_shared.spec_deci_percent()),
    )
}

/// The cell texts of every row of a match set.
pub open spec fn rows_spec(ms: Seq<FileMatch>) -> Seq<(Seq<char>, Seq<char>, Seq<char>)> {
    ms.map_values(|m: FileMatch| row_of(m))
}

/// The views of exec table rows.
pub open spec fn rows_view(rows: Seq<(String, String, String)>) -> Seq<
    (Seq<char>, Seq<char>, Seq<char>),
> {
    rows.map_values(|r: (String, String, String)| (r.0@, r.1@, r.2@))
}

/// The text that `term_grid` renders for the given rows: three
/// columns filled left to right, separated by two spaces, each as
/// wide as its widest cell, the last column right-aligned.
pub uninterp spec fn grid_text(rows: Seq<(Seq<char>, Seq<char>, Seq<char>)>) -> Seq<char>;

/// `s` without its final newline, if it has one.
pub open spec fn strip_trailing_newline(s: Seq<char>) -> Seq<char> {
    if s.len() > 0 && s.last() == '\n' {
        s.drop_last()
    } else {
        s
    }
}

/// The rendered table: one line per match, or the distinct no-match
/// signal for an empty set.
pub open spec fn formatted_table(ms: Seq<FileMatch>) -> Seq<char> {
    if ms.len() == 0 {
        no_matches_text()
    } else {
        strip_trailing_newline(grid_text(rows_spec(ms)))
    }
}

/// What an empty match set renders as.
pub open spec fn no_matches_text() -> Seq<char> {
    "No files found that match the criteria."@
}

/// Relies on `term_grid::Grid` with left-to-right direction,
/// two-space filling and three fitted columns: its rendering depends
/// on the cell texts alone.
#[verifier::external_body]
fn layout_rows(rows: &Vec<(String, String, String)>) -> (out: String)
    ensures
        out@ == grid_text(rows_view(rows@)),
{
    let mut grid = term_grid::Grid::new(term_grid::GridOptions {
        filling: term_grid::Filling::Spaces(2),
        direction: term_grid::Direction::LeftToRight,
    });
    for (path, bar, pct) in rows.iter() {
        grid.add(term_grid::Cell::from(path.as_str()));
        grid.add(term_grid::Cell::from(bar.as_str()));
        let mut pct_cell = term_grid::Cell::from(pct.as_str());
        pct_cell.alignment = term_grid::Alignment::Right;
        grid.add(pct_cell);
    }
    grid.fit_into_columns(3).to_string()
}

/// The one-character string for digit `d`.
fn digit_str(d: usize) -> (r: &'static str)
    requires
        d < 10,
    ensures
        r@ == seq![digit_char(d as int)],
{
    proof {
        reveal_strlit("0");
        reveal_strlit("1");
        reveal_strlit("2");
        reveal_strlit("3");
        reveal_strlit("4");
        reveal_strlit("5");
        reveal_strlit("6");
        reveal_strlit("7");
        reveal_strlit("8");
        reveal_strlit("9");
    }
    let r = match d {
        0 => "0",
        1 => "1",
        2 => "2",
        3 => "3",
        4 => "4",
        5 => "5",
        6 => "6",
        7 => "7",
        8 => "8",
        _ => "9",
    };
    proof {
        assert(r@ =~= seq![digit_char(d as int)]);
    }
    r
}

/// Renders `n` in decimal.
fn usize_to_decimal(n: usize) -> (r: String)
    ensures
        r@ == dec_digits(n as int),
    decreases n,
{
    if n < 10 {
        let r = digit_str(n).to_owned();
        r
    } else {
        proof {
            assert(n / 10 < n) by (nonlinear_arith)
                requires
                    n >= 10,
            ;
        }
        let mut r = usize_to_decimal(n / 10);
        r.append(digit_str(n % 10));
        proof {
            assert(r@ =~= dec_digits(n as int));
        }
        r
    }
}

/// Renders `n` plus signs.
fn repeat_plus(n: usize) -> (r: String)
    ensures
        r@ == char_repeat('+', n as int),
{
    let mut r = String::new();
    let mut i: usize = 0;
    while i < n
        invariant
            i <= n,
            r@ =~= char_repeat('+', i as int),
        decreases n - i,
    {
        proof {
            reveal_strlit("+");
        }
        r.append("+");
        proof {
            assert(r@ =~= char_repeat('+', i as int + 1));
        }
        i = i + 1;
    }
    proof {
        assert(r@ =~= char_repeat('+', n as int));
    }
    r
}

/// Renders tenths of a percent as a percentage with one decimal
/// digit.
fn percent_string(deci: usize) -> (r: String)
    ensures
        r@ == percent_chars(deci as int),
{
    let mut r = usize_to_decimal(deci / 10);
    proof {
        reveal_strlit(".");
        reveal_strlit("%");
    }
    r.append(".");
    r.append(digit_str(deci % 10));
    r.append("%");
    proof {
        assert(r@ =~= percent_chars(deci as int));
    }
    r
}

impl FileMatches {
    /// Renders the match set as an aligned three-column table, one
    /// row per match: path, proportion bar, percentage.  An empty
    /// set renders the distinct no-match signal instead of an empty
    /// table.
    pub fn get_formatted_string(&self) -> (out: String)
        requires
            wf_scores(self.0@),
        ensures
            out@ == formatted_table(self.0@),
    {
        if self.0.len() == 0 {
            return "No files found that match the criteria.".to_owned();
        }
        let mut rows: Vec<(String, String, String)> = Vec::new();
        let mut i: usize = 0;
        while i < self.0.len()
            invariant
                i <= self.0@.len(),
                wf_scores(self.0@),
                rows@.len() == i,
                rows_view(rows@) == rows_spec(self.0@.take(i as int)),
            decreases self.0@.len() - i,
        {
            let m = &self.0[i];
            let bar = repeat_plus(m.perc_shared.bar_width());
            let pct = percent_string(m.perc_shared.deci_percent());
            let path_text = m.path.clone();
            let ghost prev = rows@;
            rows.push((path_text, bar, pct));
            proof {
                assert forall|k: int| 0 <= k < i + 1 implies rows_view(rows@)[k] == rows_spec(
                    self.0@.take(i as int + 1),
                )[k] by {
                    assert(rows_spec(self.0@.take(i as int + 1))[k] == row_of(self.0@[k]));
                    if k < i {
                        assert(rows@[k] == prev[k]);
                        assert(rows_view(prev)[k] == rows_spec(self.0@.take(i as int))[k]);
                        assert(rows_spec(self.0@.take(i as int))[k] == row_of(self.0@[k]));
                    } else {
                        assert(rows_view(rows@)[k] == (rows@[k].0@, rows@[k].1@, rows@[k].2@));
                        assert(rows@[k].0@ == self.0@[k].path@);
                    }
                }
                assert(rows_view(rows@) =~= rows_spec(self.0@.take(i as int + 1)));
            }
            i = i + 1;
        }
        proof {
            assert(self.0@.take(self.0@.len() as int) =~= self.0@);
        }
        let raw = layout_rows(&rows);
        let raw_len = raw.as_str().unicode_len();
        if raw_len > 0 && raw.as_str().get_char(raw_len - 1) == '\n' {
            let stripped = raw.as_str().substring_char(0, raw_len - 1).to_owned();
            proof {
                assert(stripped@ =~= strip_trailing_newline(raw@));
            }
            stripped
        } else {
            raw
        }
    }
}

} // verus!
