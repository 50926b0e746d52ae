//! What can go wrong when a piece is placed or moved.

use vstd::prelude::*;
use vstd::string::StringExecFns;
use crate::square::Square;

verus! {

/// The reason why an action was refused.
#[derive(PartialEq, Eq, Structural, Clone, Copy, Debug)]
pub enum Error {
    /// No piece may be placed on this square: a piece that is not smaller
    /// is there already, or one of the opponent that may not be covered.
    InvalidPlacing(Square),
    /// No piece may be moved between these squares: `from` is empty, or the
    /// piece on `to` is not smaller than the one that would move.
    InvalidMoving { from: Square, to: Square },
    /// The pile of the hand that a piece was to come from is empty.
    EmptyHand,
}

impl Error {
    /// The message that says what was refused.
    pub open spec fn message(self) -> Seq<char> {
        match self {
            Error::InvalidPlacing(square) => "Couldn't place on "@ + square.name_spec() + "."@,
            Error::InvalidMoving { from, to } => "Couldn't move from "@ + from.name_spec() + " to "@
                + to.name_spec() + "."@,
            Error::EmptyHand => "Couldn't extract a piece from empty hand."@,
        }
    }

    /// Returns the message that says what was refused.
    pub fn to_string(&self) -> (r: String)
        ensures
            r@ == self.message(),
    {
        match self {
            Error::InvalidPlacing(square) => {
                let mut text = "Couldn't place on ".to_owned();
                text.append(square.to_string().as_str());
                text.append(".");
                text
            },
            Error::InvalidMoving { from, to } => {
                let mut text = "Couldn't move from ".to_owned();
                text.append(from.to_string().as_str());
                text.append(" to ");
                text.append(to.to_string().as_str());
                text.append(".");
                text
            },
            Error::EmptyHand => "Couldn't extract a piece from empty hand.".to_owned(),
        }
    }
}

} // verus!
