//! The two sides of the game.

use vstd::prelude::*;

verus! {

/// The color of a piece, and of the player who owns it.
#[derive(PartialEq, Eq, Structural, PartialOrd, Ord, Clone, Copy, Debug, Hash)]
pub enum Color {
    Black,
    White,
}

impl Color {
    /// The number of colors.
    pub const NUM: usize = 2;

    /// Both colors, Black first.
    pub const ALL: [Color; 2] = [Color::Black, Color::White];

    /// The opposite color.
    pub open spec fn opponent(self) -> Color {
        match self {
            Color::Black => Color::White,
            Color::White => Color::Black,
        }
    }

    /// The place of the color wherever colors are listed: 0 for Black, 1
    /// for White.
    pub open spec fn spec_index(self) -> usize {
        match self {
            Color::Black => 0,
            Color::White => 1,
        }
    }

    /// Returns the place of the color wherever colors are listed: 0 for
    /// Black, 1 for White.
    #[verifier::when_used_as_spec(spec_index)]
    pub fn index(self) -> (r: usize)
        ensures
            r == self.spec_index(),
    {
        match self {
            Color::Black => 0,
            Color::White => 1,
        }
    }

    /// Returns the opposite color.
    pub fn reverse(&self) -> (r: Color)
        ensures
            r == self.opponent(),
            r != *self,
    {
        match self {
            Color::Black => Color::White,
            Color::White => Color::Black,
        }
    }

}

/// Reversing twice gives the color back.
pub proof fn lemma_reverse_involution(c: Color)
    ensures
        c.opponent().opponent() == c,
        c.opponent() != c,
{
}

} // verus!
