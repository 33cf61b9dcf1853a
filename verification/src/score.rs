//! Similarity scores.
//!
//! A score is the exact fraction of reference lines that a candidate
//! shares, kept as a numerator/denominator pair so that every later
//! step — ordering, bar widths, percentages — is exact integer
//! arithmetic on the fraction.

use vstd::prelude::*;

verus! {

/// A similarity score as the exact fraction `num / den`.
///
/// A well-formed score (see [`Score::wf`]) satisfies
/// `1 <= den && num <= den`, so its value lies in `[0, 1]`.
#[derive(Clone, Copy, PartialEq, Eq, Structural, Debug)]
pub struct Score {
    /// Lines of the reference that the candidate shares.
    pub num: usize,
    /// Lines of the reference that were compared.
    pub den: usize,
}

impl Score {
    /// The fraction is well defined and lies in `[0, 1]`.
    pub open spec fn wf(self) -> bool {
        1 <= self.den && self.num <= self.den
    }

    /// The score is exactly one: a perfect match.
    pub open spec fn is_one(self) -> bool {
        self.num == self.den
    }

    /// The score is exactly zero: nothing shared.
    pub open spec fn is_zero(self) -> bool {
        self.num == 0
    }

    /// Strict fraction order: `self < other`, by cross-multiplication.
    pub open spec fn spec_lt(self, other: Score) -> bool {
        self.num * other.den < other.num * self.den
    }

    /// `round(10 * num / den)`, the width of a ten-step proportion bar.
    pub open spec fn spec_bar_width(self) -> int {
        (20 * self.num + self.den) / (2 * self.den)
    }

    /// `round(1000 * num / den)`: the score as tenths of a percent.
    pub open spec fn spec_deci_percent(self) -> int {
        (2000 * self.num + self.den) / (2 * self.den)
    }

    /// Strict fraction comparison.
    pub fn lt(&self, other: &Score) -> (r: bool)
        ensures
            r == self.spec_lt(*other),
    {
        proof {
            vstd::arithmetic::mul::lemma_mul_upper_bound(
                self.num as int,
                0xffff_ffff_ffff_ffff,
                other.den as int,
                0xffff_ffff_ffff_ffff,
            );
            vstd::arithmetic::mul::lemma_mul_upper_bound(
                other.num as int,
                0xffff_ffff_ffff_ffff,
                self.den as int,
                0xffff_ffff_ffff_ffff,
            );
        }
        (self.num as u128) * (other.den as u128) < (other.num as u128) * (self.den as u128)
    }

    /// The rounded width of the proportion bar, at most ten for a
    /// well-formed score.
    pub fn bar_width(&self) -> (w: usize)
        requires
            self.wf(),
        ensures
            w == self.spec_bar_width(),
            w <= 10,
    {
        proof {
            lemma_rounded_scale_bounded(self.num as int, self.den as int, 10);
        }
        let w128: u128 = (20 * self.num as u128 + self.den as u128) / (2 * self.den as u128);
        w128 as usize
    }

    /// The score as rounded tenths of a percent, at most 1000 for a
    /// well-formed score.
    pub fn deci_percent(&self) -> (p: usize)
        requires
            self.wf(),
        ensures
            p == self.spec_deci_percent(),
            p <= 1000,
    {
        proof {
            lemma_rounded_scale_bounded(self.num as int, self.den as int, 1000);
        }
        let p128: u128 = (2000 * self.num as u128 + self.den as u128) / (2 * self.den as u128);
        p128 as usize
    }
}

/// Rounding `scale * n / d` half-up never exceeds `scale` when
/// `n <= d`.
proof fn lemma_rounded_scale_bounded(n: int, d: int, scale: int)
    requires
        1 <= d,
        0 <= n <= d,
        1 <= scale,
    ensures
        0 <= (2 * scale * n + d) / (2 * d) <= scale,
{
    let q = (2 * scale * n + d) / (2 * d);
    vstd::arithmetic::div_mod::lemma_fundamental_div_mod(2 * scale * n + d, 2 * d);
    assert(0 <= q && q <= scale) by (nonlinear_arith)
        requires
            1 <= d,
            0 <= n <= d,
            1 <= scale,
            2 * scale * n + d == 2 * d * q + (2 * scale * n + d) % (2 * d),
            0 <= (2 * scale * n + d) % (2 * d) < 2 * d,
    ;
}

/// Where `b` is not below `a` — so `a` is at most `b` — and `b` is
/// below `c`, `a` is below `c` too.
pub proof fn lemma_score_lt_of_le_lt(a: Score, b: Score, c: Score)
    requires
        1 <= a.den,
        1 <= b.den,
        1 <= c.den,
        !b.spec_lt(a),
        b.spec_lt(c),
    ensures
        a.spec_lt(c),
{
    assert(a.num * c.den < c.num * a.den) by (nonlinear_arith)
        requires
            1 <= a.den,
            1 <= b.den,
            1 <= c.den,
            !(b.num * a.den < a.num * b.den),
            b.num * c.den < c.num * b.den,
    ;
}

/// Strict fraction order is transitive over well-formed denominators.
pub proof fn lemma_score_lt_trans(a: Score, b: Score, c: Score)
    requires
        1 <= a.den,
        1 <= b.den,
        1 <= c.den,
        a.spec_lt(b),
        b.spec_lt(c),
    ensures
        a.spec_lt(c),
{
    assert(a.num * c.den < c.num * a.den) by (nonlinear_arith)
        requires
            1 <= a.den,
            1 <= b.den,
            1 <= c.den,
            a.num * b.den < b.num * a.den,
            b.num * c.den < c.num * b.den,
    ;
}

} // verus!
