//! Line counting.
//!
//! Two different line counts matter when a reference text is scored
//! against a candidate:
//!
//! * [`line_count`] — the number of line tokens the diff works on.  A
//!   token ends at `"\n"`, at `"\r\n"`, or at a `"\r"` that no `"\n"`
//!   follows, and a non-empty trailing segment is one more token.
//! * [`ref_line_count`] — the scoring denominator: the segments of a
//!   split on `'\n'`, minus the empty trailing segment that a final
//!   `'\n'` produces.

use vstd::prelude::*;

verus! {

/// True when position `i` of `s` completes a line break: a `'\n'`
/// always does, and any other character decides that a `'\r'` right
/// before it was a break of its own.
pub open spec fn break_decided_at(s: Seq<char>, i: int) -> bool {
    s[i] == '\n' || (s[i] != '\n' && 0 < i && s[i - 1] == '\r')
}

/// Number of line breaks decided at positions below `k`.
pub open spec fn breaks_up_to(s: Seq<char>, k: int) -> nat
    decreases k,
{
    if k <= 0 {
        0
    } else {
        breaks_up_to(s, k - 1) + (if break_decided_at(s, k - 1) {
            1nat
        } else {
            0nat
        })
    }
}

/// Number of line tokens of `s`: every decided break ends one token,
/// and any trailing text (including a lone final `'\r'`, which is a
/// break that no later character could decide) is one more.
pub open spec fn line_count(s: Seq<char>) -> nat {
    if s.len() == 0 {
        0
    } else {
        breaks_up_to(s, s.len() as int) + (if s[s.len() - 1] == '\n' {
            0nat
        } else {
            1nat
        })
    }
}

/// Number of `'\n'` characters at positions below `k`.
pub open spec fn newlines_up_to(s: Seq<char>, k: int) -> nat
    decreases k,
{
    if k <= 0 {
        0
    } else {
        newlines_up_to(s, k - 1) + (if s[k - 1] == '\n' {
            1nat
        } else {
            0nat
        })
    }
}

/// Number of `'\n'` characters in `s`.
pub open spec fn newline_count(s: Seq<char>) -> nat {
    newlines_up_to(s, s.len() as int)
}

/// The scoring denominator: splitting `s` on `'\n'` yields
/// `newline_count(s) + 1` segments, and the empty segment after a
/// final `'\n'` is not counted.  Never zero: even the empty text
/// splits into one (empty) segment.
pub open spec fn ref_line_count(s: Seq<char>) -> nat {
    newline_count(s) + (if s.len() > 0 && s[s.len() - 1] == '\n' {
        0nat
    } else {
        1nat
    })
}

/// The line count a scanner sees: the non-empty segments of a split
/// on `'\n'`, which is [`ref_line_count`] except that empty text has
/// no lines at all.
pub open spec fn text_line_count(s: Seq<char>) -> nat {
    if s.len() == 0 {
        0
    } else {
        ref_line_count(s)
    }
}

pub proof fn lemma_newlines_up_to_le(s: Seq<char>, k: int)
    requires
        0 <= k <= s.len(),
    ensures
        newlines_up_to(s, k) <= k,
    decreases k,
{
    if k > 0 {
        lemma_newlines_up_to_le(s, k - 1);
    }
}

pub proof fn lemma_breaks_up_to_le(s: Seq<char>, k: int)
    requires
        0 <= k <= s.len(),
    ensures
        breaks_up_to(s, k) <= k,
    decreases k,
{
    if k > 0 {
        lemma_breaks_up_to_le(s, k - 1);
    }
}

/// The denominator is at least one, so a score is never a division
/// by zero.
pub proof fn lemma_ref_line_count_pos(s: Seq<char>)
    ensures
        ref_line_count(s) >= 1,
{
    if s.len() > 0 && s[s.len() - 1] == '\n' {
        assert(newlines_up_to(s, s.len() as int) >= 1);
    }
}

/// Every `'\n'` decides a break, so the diff's token count is never
/// smaller than the scoring denominator.
proof fn lemma_newlines_le_breaks(s: Seq<char>, k: int)
    requires
        0 <= k <= s.len(),
    ensures
        newlines_up_to(s, k) <= breaks_up_to(s, k),
    decreases k,
{
    if k > 0 {
        lemma_newlines_le_breaks(s, k - 1);
    }
}

/// A text whose last character is not `'\n'` ends in an undecided
/// token, so strictly fewer breaks than characters are decided.
proof fn lemma_breaks_up_to_strict(s: Seq<char>, k: int)
    requires
        0 < k <= s.len(),
        s[k - 1] != '\n',
    ensures
        breaks_up_to(s, k) < k,
    decreases k,
{
    if break_decided_at(s, k - 1) {
        lemma_breaks_up_to_strict(s, k - 1);
    } else {
        lemma_breaks_up_to_le(s, k - 1);
    }
}

/// A text never has more line tokens than characters.
pub proof fn lemma_line_count_le_len(s: Seq<char>)
    ensures
        line_count(s) <= s.len(),
{
    if s.len() > 0 {
        if s[s.len() - 1] == '\n' {
            lemma_breaks_up_to_le(s, s.len() as int);
        } else {
            lemma_breaks_up_to_strict(s, s.len() as int);
        }
    }
}

pub proof fn lemma_ref_le_line_count(s: Seq<char>)
    requires
        s.len() > 0,
    ensures
        ref_line_count(s) <= line_count(s),
{
    lemma_newlines_le_breaks(s, s.len() as int);
}

/// Counts the line tokens of `s`, as the line-level diff tokenizes
/// them.
pub fn count_lines(s: &str) -> (n: usize)
    ensures
        n == line_count(s@),
{
    let len = s.unicode_len();
    let mut n: usize = 0;
    let mut prev: char = ' ';
    let mut i: usize = 0;
    for c in it: s.chars()
        invariant
            it.seq() == s@,
            i == it.index(),
            i <= len,
            len == s@.len(),
            n == breaks_up_to(s@, i as int),
            i > 0 ==> prev == s@[i as int - 1],
            i == 0 ==> prev == ' ',
    {
        proof {
            lemma_breaks_up_to_le(s@, i as int);
        }
        if c == '\n' || (prev == '\r' && c != '\n') {
            n = n + 1;
        }
        prev = c;
        i = i + 1;
    }
    if len > 0 && s.get_char(len - 1) != '\n' {
        proof {
            lemma_breaks_up_to_strict(s@, len as int);
        }
        n = n + 1;
    }
    n
}

/// Counts the scoring denominator of `s`: its segments under a split
/// on `'\n'`, without the empty segment after a final `'\n'`.
pub fn count_ref_lines(s: &str) -> (n: usize)
    ensures
        n == ref_line_count(s@),
        n >= 1,
{
    let len = s.unicode_len();
    let mut n: usize = 0;
    let mut i: usize = 0;
    for c in it: s.chars()
        invariant
            it.seq() == s@,
            i == it.index(),
            i <= len,
            len == s@.len(),
            n == newlines_up_to(s@, i as int),
    {
        proof {
            lemma_newlines_up_to_le(s@, i as int);
        }
        if c == '\n' {
            n = n + 1;
        }
        i = i + 1;
    }
    if len == 0 || s.get_char(len - 1) != '\n' {
        proof {
            if len > 0 {
                assert(newlines_up_to(s@, len as int) == newlines_up_to(s@, len as int - 1) + (if s@[len as int - 1] == '\n' {
                    1nat
                } else {
                    0nat
                }));
                lemma_newlines_up_to_le(s@, len as int - 1);
            }
        }
        n = n + 1;
    }
    n
}

/// Counts the lines of `s` as the scanner's size filter sees them:
/// zero for empty text, else the `'\n'`-split segment count without
/// an empty trailing segment.
pub fn count_text_lines(s: &str) -> (n: usize)
    ensures
        n == text_line_count(s@),
{
    if s.is_empty() {
        0
    } else {
        count_ref_lines(s)
    }
}

} // verus!
