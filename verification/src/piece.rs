//! Pieces, their sizes, and stacks of pieces.

use vstd::prelude::*;
use crate::color::Color;

verus! {

/// The size of a piece. A piece may only cover a strictly smaller one.
#[derive(PartialEq, Eq, Structural, PartialOrd, Ord, Clone, Copy, Debug, Hash)]
pub enum Size {
    Tiny,
    Small,
    Medium,
    Big,
}

impl Size {
    /// The number of sizes.
    pub const NUM: usize = 4;

    /// Every size, from the smallest to the largest.
    pub const ALL: [Size; 4] = [Size::Tiny, Size::Small, Size::Medium, Size::Big];

    /// The place of the size in the order of sizes: 0 for Tiny, 3 for Big.
    pub open spec fn spec_rank(self) -> u8 {
        match self {
            Size::Tiny => 0,
            Size::Small => 1,
            Size::Medium => 2,
            Size::Big => 3,
        }
    }

    /// Returns the place of the size in the order of sizes: 0 for Tiny, 3
    /// for Big.
    #[verifier::when_used_as_spec(spec_rank)]
    pub fn rank(self) -> (r: u8)
        ensures
            r == self.spec_rank(),
    {
        match self {
            Size::Tiny => 0,
            Size::Small => 1,
            Size::Medium => 2,
            Size::Big => 3,
        }
    }

    /// Whether a piece of this size may cover one of size `other`.
    pub open spec fn spec_covers(self, other: Size) -> bool {
        self.rank() > other.rank()
    }

    /// Returns whether a piece of this size may cover one of size `other`:
    /// whether this size is strictly larger.
    #[verifier::when_used_as_spec(spec_covers)]
    pub fn covers(self, other: Size) -> (r: bool)
        ensures
            r == self.spec_covers(other),
    {
        self.rank() > other.rank()
    }
}

/// A piece: whose it is, and how large.
#[derive(PartialEq, Eq, Structural, PartialOrd, Ord, Clone, Copy, Debug, Hash)]
pub struct Piece {
    pub color: Color,
    pub size: Size,
}

impl Piece {
    /// Returns the piece of the given color and size.
    pub fn new(color: Color, size: Size) -> (r: Piece)
        ensures
            r == (Piece { color, size }),
    {
        Piece { color, size }
    }

    /// The place of the piece wherever all eight kinds of piece are listed:
    /// the four black sizes first, then the four white ones.
    pub open spec fn spec_slot(self) -> usize {
        (self.size.rank() + 4 * self.color.index()) as usize
    }

    /// Returns the place of the piece wherever all eight kinds of piece are
    /// listed: the four black sizes first, then the four white ones.
    #[verifier::when_used_as_spec(spec_slot)]
    pub fn slot(self) -> (r: usize)
        ensures
            r == self.spec_slot(),
            r < 8,
    {
        self.size.rank() as usize + 4 * self.color.index()
    }
}

/// A stack of pieces. The last piece of the sequence is the top.
#[derive(PartialEq, Eq, PartialOrd, Ord, Debug, Hash)]
pub struct PieceSet(Vec<Piece>);

impl Clone for PieceSet {
    /// Returns a stack of the same pieces.
    fn clone(&self) -> (r: PieceSet)
        ensures
            r@ == self@,
    {
        PieceSet::from_slice(self.0.as_slice())
    }
}

impl View for PieceSet {
    type V = Seq<Piece>;

    /// The pieces from the bottom to the top.
    closed spec fn view(&self) -> Seq<Piece> {
        self.0@
    }
}

impl PieceSet {
    /// Returns the stack that holds the pieces of `vec`, the last on top.
    pub fn from_vec(vec: Vec<Piece>) -> (r: PieceSet)
        ensures
            r@ == vec@,
    {
        PieceSet(vec)
    }

    /// Returns the stack that holds the pieces of `slice`, the last on top.
    pub fn from_slice(slice: &[Piece]) -> (r: PieceSet)
        ensures
            r@ == slice@,
    {
        let mut vec: Vec<Piece> = Vec::new();
        let mut i: usize = 0;
        while i < slice.len()
            invariant
                i <= slice@.len(),
                vec@ == slice@.take(i as int),
            decreases slice@.len() - i,
        {
            vec.push(slice[i]);
            i = i + 1;
            assert(vec@ =~= slice@.take(i as int));
        }
        assert(slice@.take(i as int) =~= slice@);
        PieceSet(vec)
    }

    /// Returns the stack without any piece.
    pub fn none() -> (r: PieceSet)
        ensures
            r@ == Seq::<Piece>::empty(),
    {
        PieceSet(Vec::new())
    }

    /// Returns the top piece and leaves it where it is, or `None` if the
    /// stack is empty.
    pub fn peek(&self) -> (r: Option<&Piece>)
        ensures
            self@.len() == 0 ==> r.is_none(),
            self@.len() > 0 ==> r == Some(&self@.last()),
    {
        let n: usize = self.0.len();
        if n == 0 {
            None
        } else {
            Some(&self.0[n - 1])
        }
    }

    /// Takes the top piece off and returns it, or returns `None` and leaves
    /// the stack as it is if the stack is empty.
    pub fn pop(&mut self) -> (r: Option<Piece>)
        ensures
            old(self)@.len() == 0 ==> r.is_none() && final(self)@ == old(self)@,
            old(self)@.len() > 0 ==> r == Some(old(self)@.last()),
            old(self)@.len() > 0 ==> final(self)@ == old(self)@.drop_last(),
    {
        self.0.pop()
    }
}

} // verus!
