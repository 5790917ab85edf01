//! Similarity scores in fixed point.
//!
//! A score is held as a whole number of millionths, so that comparison with
//! the relevance threshold and rendering to two decimals are exact integer
//! arithmetic.

use vstd::prelude::*;
use crate::text::{decimal, digit, digit_of, push_decimal};

verus! {

/// A similarity score: higher is more relevant.
#[derive(Clone, Copy, Debug, PartialEq, Eq, Structural)]
pub struct Score {
    /// The score in millionths: `900_000` stands for 0.9.
    pub millionths: i64,
}

/// The distance of `millionths` from zero.
pub open spec fn magnitude(millionths: int) -> nat {
    if millionths >= 0 {
        millionths as nat
    } else {
        (-millionths) as nat
    }
}

/// `magnitude`, a count of millionths, rounded to whole hundredths. A value
/// halfway between two hundredths goes to the even one.
pub open spec fn hundredths(magnitude: nat) -> nat {
    let whole = magnitude / 10_000;
    let rest = magnitude % 10_000;
    if rest > 5_000 || (rest == 5_000 && whole % 2 == 1) {
        whole + 1
    } else {
        whole
    }
}

/// The score with two decimals: a minus sign where it is below zero, the
/// whole part, a point and two digits.
pub open spec fn two_decimals(millionths: int) -> Seq<char> {
    let h = hundredths(magnitude(millionths));
    let sign = if millionths < 0 {
        seq!['-']
    } else {
        Seq::<char>::empty()
    };
    sign + decimal(h / 100) + seq!['.', digit((h / 10) % 10), digit(h % 10)]
}

impl Score {
    /// The score of `millionths` millionths.
    pub fn from_millionths(millionths: i64) -> (score: Score)
        ensures
            score.millionths == millionths,
    {
        Score { millionths }
    }

    /// Whether this score is no lower than `threshold`.
    pub open spec fn reaches(self, threshold: Score) -> bool {
        self.millionths >= threshold.millionths
    }

    /// Whether this score is no lower than `threshold`.
    pub fn meets(&self, threshold: &Score) -> (b: bool)
        ensures
            b == self.reaches(*threshold),
    {
        self.millionths >= threshold.millionths
    }

    /// Appends the score with two decimals to `out`.
    pub fn push_two_decimals(&self, out: &mut String)
        ensures
            final(out)@ == old(out)@ + two_decimals(self.millionths as int),
    {
        let m: i64 = self.millionths;
        let size: u64 = if m >= 0 {
            m as u64
        } else {
            (-(m + 1)) as u64 + 1
        };
        assert(size == magnitude(m as int));
        let whole: u64 = size / 10_000;
        let rest: u64 = size % 10_000;
        let h: u64 = if rest > 5_000 || (rest == 5_000 && whole % 2 == 1) {
            whole + 1
        } else {
            whole
        };
        assert(h == hundredths(size as nat));
        if m < 0 {
            out.push('-');
        }
        push_decimal(out, h / 100);
        out.push('.');
        out.push(digit_of((h / 10) % 10));
        out.push(digit_of(h % 10));
        assert(out@ =~= old(out)@ + two_decimals(m as int));
    }

    /// The score with two decimals.
    pub fn to_two_decimals(&self) -> (s: String)
        ensures
            s@ == two_decimals(self.millionths as int),
    {
        let mut s = String::new();
        self.push_two_decimals(&mut s);
        assert(s@ =~= two_decimals(self.millionths as int));
        s
    }
}

} // verus!
