//! The preset patterns that can be stamped onto the grid.

use vstd::prelude::*;

verus! {

/// A named pattern with a fixed footprint, given relative to its top-left
/// corner.
#[derive(Clone, Copy, Debug, PartialEq, Eq, Structural)]
pub enum Pattern {
    /// Five cells in a three-by-three square.
    Glider,
    /// Forty-eight cells in a thirteen-by-thirteen square, an oscillator of
    /// period three.
    Pulsar,
}

impl Pattern {
    /// The side of the square that holds the pattern.
    pub open spec fn extent(self) -> nat {
        match self {
            Pattern::Glider => 3,
            Pattern::Pulsar => 13,
        }
    }

    /// Whether the pattern has a live cell `dr` rows below and `dc` columns
    /// right of its corner.
    pub open spec fn covers(self, dr: int, dc: int) -> bool {
        match self {
            Pattern::Glider => {
                ||| dr == 0 && dc == 0
                ||| dr == 1 && (dc == 1 || dc == 2)
                ||| dr == 2 && (dc == 0 || dc == 1)
            },
            Pattern::Pulsar => {
                ||| (dr == 0 || dr == 5 || dr == 7 || dr == 12) && (dc == 2 || dc == 3 || dc == 4
                    || dc == 8 || dc == 9 || dc == 10)
                ||| (dr == 2 || dr == 3 || dr == 4 || dr == 8 || dr == 9 || dr == 10) && (dc == 0
                    || dc == 5 || dc == 7 || dc == 12)
            },
        }
    }

    /// The side of the square that holds the pattern.
    pub fn size(self) -> (n: u32)
        ensures
            n == self.extent(),
    {
        match self {
            Pattern::Glider => 3,
            Pattern::Pulsar => 13,
        }
    }

    /// Whether the pattern has a live cell at the given offset.
    pub fn has(self, dr: u32, dc: u32) -> (b: bool)
        ensures
            b == self.covers(dr as int, dc as int),
    {
        match self {
            Pattern::Glider => {
                (dr == 0 && dc == 0) || (dr == 1 && (dc == 1 || dc == 2)) || (dr == 2 && (dc == 0
                    || dc == 1))
            },
            Pattern::Pulsar => {
                if dr == 0 || dr == 5 || dr == 7 || dr == 12 {
                    dc == 2 || dc == 3 || dc == 4 || dc == 8 || dc == 9 || dc == 10
                } else if dr == 2 || dr == 3 || dr == 4 || dr == 8 || dr == 9 || dr == 10 {
                    dc == 0 || dc == 5 || dc == 7 || dc == 12
                } else {
                    false
                }
            },
        }
    }
}

/// Every live cell of a pattern lies inside its square.
pub proof fn lemma_covers_within_extent(pattern: Pattern, dr: int, dc: int)
    requires
        pattern.covers(dr, dc),
    ensures
        0 <= dr < pattern.extent(),
        0 <= dc < pattern.extent(),
{
}

} // verus!
