//! Scores in single precision, compared by their bit patterns.

use vstd::prelude::*;

verus! {

/// A score, held as the bit pattern of an IEEE 754 single precision number.
#[derive(Debug, Clone, Copy, PartialEq, Eq, Structural)]
pub struct Score {
    pub bits: u32,
}

impl Score {
    /// The pattern stands for no number.
    pub open spec fn is_nan(self) -> bool {
        self.bits % 0x8000_0000 > 0x7f80_0000
    }

    /// The place of the number among all others: patterns of numbers without
    /// sign count up, those with the sign count down, and both zeros are zero.
    pub open spec fn rank(self) -> int {
        if self.bits < 0x8000_0000 {
            self.bits as int
        } else {
            0x8000_0000 - self.bits
        }
    }

    /// One number is greater than another. Nothing is greater than, or less
    /// than, what is no number.
    pub open spec fn exceeded_by(self, other: Score) -> bool {
        &&& !self.is_nan()
        &&& !other.is_nan()
        &&& other.rank() > self.rank()
    }

    /// Whether this score is greater than another.
    pub fn exceeds(self, other: Score) -> (r: bool)
        ensures
            r == other.exceeded_by(self),
    {
        if self.bits % 0x8000_0000 > 0x7f80_0000 || other.bits % 0x8000_0000 > 0x7f80_0000 {
            return false;
        }
        if self.bits < 0x8000_0000 {
            if other.bits < 0x8000_0000 {
                self.bits > other.bits
            } else {
                self.bits > 0 || other.bits > 0x8000_0000
            }
        } else if other.bits < 0x8000_0000 {
            false
        } else {
            self.bits < other.bits
        }
    }
}

/// A score never exceeds itself, and of two scores at most one exceeds the
/// other.
pub proof fn law_exceeding_is_strict(a: Score, b: Score)
    ensures
        !a.exceeded_by(a),
        !(a.exceeded_by(b) && b.exceeded_by(a)),
{
}

/// Scores compare as the numbers that their patterns stand for: without sign by
/// their patterns, with the sign the other way round, those with the sign below
/// those without, both zeros alike, and what is no number never.
pub proof fn law_scores_compare_as_numbers(a: Score, b: Score)
    ensures
        a.bits <= 0x7f80_0000 && b.bits <= 0x7f80_0000 ==> (a.exceeded_by(b) <==> a.bits < b.bits),
        0x8000_0000 <= a.bits <= 0xff80_0000 && 0x8000_0000 <= b.bits <= 0xff80_0000 ==> (
        a.exceeded_by(b) <==> a.bits > b.bits),
        0x8000_0000 <= a.bits <= 0xff80_0000 && b.bits <= 0x7f80_0000 ==> (a.exceeded_by(b)
            <==> a.bits != 0x8000_0000 || b.bits != 0) && !b.exceeded_by(a),
        0x7f80_0000 < a.bits < 0x8000_0000 || 0xff80_0000 < a.bits ==> !a.exceeded_by(b)
            && !b.exceeded_by(a),
{
}

} // verus!
