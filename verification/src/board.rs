//! The board: which pieces stand on which squares, and what the rules of
//! covering allow.
//!
//! The board keeps one set of squares for each of the eight kinds of piece.
//! A stack of pieces on a square is not stored as such: the pieces on a
//! square are those whose sets hold it, and the largest of them is on top.

use vstd::prelude::*;
use vstd::std_specs::iter::IteratorSpec;
use core::ops::Not;
use crate::bitboard::BitBoard;
use crate::bitboard::lemma_membership;
use crate::bitboard::lemma_same_members;
use crate::color::Color;
use crate::error::Error;
use crate::piece::Piece;
use crate::piece::PieceSet;
use crate::piece::Size;
use crate::square::Square;

verus! {

/// The state of the board.
#[derive(Clone, Copy, Debug)]
pub struct Board {
    /// Where each kind of piece stands: the black sizes from Tiny to Big,
    /// then the white ones.
    bitboards: [BitBoard; 8],
    /// The squares that show each color from above: Black, then White.
    color_combined: [BitBoard; 2],
    /// The squares that hold any piece.
    combined: BitBoard,
}

impl Board {
    /// The number of squares along each side of the board.
    pub const SIZE: usize = 4;

    /// The squares on which a piece of the kind `p` stands, covered or not.
    pub closed spec fn raw(self, p: Piece) -> BitBoard {
        self.bitboards[p.slot() as int]
    }

    /// The squares that the board records as showing color `c` from above.
    pub closed spec fn shown(self, c: Color) -> BitBoard {
        self.color_combined[c.index() as int]
    }

    /// The squares that the board records as holding any piece.
    pub closed spec fn occupied(self) -> BitBoard {
        self.combined
    }

    /// Whether a piece of the kind `p` stands on `sq`, covered or not.
    pub open spec fn has(self, p: Piece, sq: Square) -> bool {
        self.raw(p).contains(sq)
    }

    /// Whether a piece of color `c` that is strictly larger than `s` stands
    /// on `sq`.
    pub open spec fn has_larger(self, c: Color, s: Size, sq: Square) -> bool {
        ||| s.rank() < 3 && self.has(Piece { color: c, size: Size::Big }, sq)
        ||| s.rank() < 2 && self.has(Piece { color: c, size: Size::Medium }, sq)
        ||| s.rank() < 1 && self.has(Piece { color: c, size: Size::Small }, sq)
    }

    /// Whether the piece of the kind `p` stands on `sq` with no strictly
    /// larger piece of the other color on the same square.
    pub open spec fn uncovered(self, p: Piece, sq: Square) -> bool {
        self.has(p, sq) && !self.has_larger(p.color.opponent(), p.size, sq)
    }

    /// Whether `sq` shows color `c` from above: a piece of that color
    /// stands there with no strictly larger piece of the other color.
    pub open spec fn shows(self, c: Color, sq: Square) -> bool {
        ||| self.uncovered(Piece { color: c, size: Size::Big }, sq)
        ||| self.uncovered(Piece { color: c, size: Size::Medium }, sq)
        ||| self.uncovered(Piece { color: c, size: Size::Small }, sq)
        ||| self.uncovered(Piece { color: c, size: Size::Tiny }, sq)
    }

    /// Whether a piece of color `c` stands on `sq` whose size is strictly
    /// larger than `s` and whose rank is below `bound`.
    spec fn has_larger_below(self, c: Color, s: Size, bound: int, sq: Square) -> bool {
        ||| s.rank() < 3 < bound && self.has(Piece { color: c, size: Size::Big }, sq)
        ||| s.rank() < 2 < bound && self.has(Piece { color: c, size: Size::Medium }, sq)
        ||| s.rank() < 1 < bound && self.has(Piece { color: c, size: Size::Small }, sq)
    }

    /// Whether `sq` shows color `c` from above by a piece whose rank is at
    /// least `least`.
    spec fn shows_from(self, c: Color, least: int, sq: Square) -> bool {
        ||| least <= 3 && self.uncovered(Piece { color: c, size: Size::Big }, sq)
        ||| least <= 2 && self.uncovered(Piece { color: c, size: Size::Medium }, sq)
        ||| least <= 1 && self.uncovered(Piece { color: c, size: Size::Small }, sq)
        ||| least <= 0 && self.uncovered(Piece { color: c, size: Size::Tiny }, sq)
    }

    /// Whether a piece of size `s` and of either color stands on `sq`.
    pub open spec fn has_size(self, s: Size, sq: Square) -> bool {
        self.has(Piece { color: Color::Black, size: s }, sq) || self.has(
            Piece { color: Color::White, size: s },
            sq,
        )
    }

    /// The size of the largest piece on `sq`, or `None` if the square is
    /// empty.
    pub open spec fn largest_at(self, sq: Square) -> Option<Size> {
        if self.has_size(Size::Big, sq) {
            Some(Size::Big)
        } else if self.has_size(Size::Medium, sq) {
            Some(Size::Medium)
        } else if self.has_size(Size::Small, sq) {
            Some(Size::Small)
        } else if self.has_size(Size::Tiny, sq) {
            Some(Size::Tiny)
        } else {
            None
        }
    }

    /// The piece on top of `sq`: the largest piece that stands there, or
    /// `None` if the square is empty.
    pub open spec fn top_at(self, sq: Square) -> Option<Piece> {
        match self.largest_at(sq) {
            Some(s) => Some(
                Piece {
                    color: if self.has(Piece { color: Color::Black, size: s }, sq) {
                        Color::Black
                    } else {
                        Color::White
                    },
                    size: s,
                },
            ),
            None => None,
        }
    }

    /// The largest size, with a rank below `bound`, of which a piece of
    /// color `c` stands on `sq`; Tiny if there is none.
    spec fn largest_own_below(self, c: Color, bound: int, sq: Square) -> Size {
        if bound > 3 && self.has(Piece { color: c, size: Size::Big }, sq) {
            Size::Big
        } else if bound > 2 && self.has(Piece { color: c, size: Size::Medium }, sq) {
            Size::Medium
        } else if bound > 1 && self.has(Piece { color: c, size: Size::Small }, sq) {
            Size::Small
        } else {
            Size::Tiny
        }
    }

    /// Whether the squares of some line all show color `c` from above.
    pub open spec fn wins(self, c: Color) -> bool {
        exists|i: int| 0 <= i < 10 && #[trigger] self.line_won(c, i)
    }

    /// Whether the four squares of line `i` all show color `c` from above.
    pub open spec fn line_won(self, c: Color, i: int) -> bool {
        self.shown(c).covers(BitBoard::line(i))
    }

    /// Whether some line through `sq` has exactly three squares that show
    /// color `c` from above.
    pub open spec fn three_in_a_row(self, c: Color, sq: Square) -> bool {
        exists|i: int| 0 <= i < 10 && #[trigger] self.line_threatens(c, i, sq)
    }

    /// Whether line `i` goes through `sq` and has exactly three squares that
    /// show color `c` from above.
    pub open spec fn line_threatens(self, c: Color, i: int, sq: Square) -> bool {
        BitBoard::line(i).contains(sq) && self.shown(c).intersection(BitBoard::line(i))@.len()
            == 3
    }

    /// Whether the rules allow a piece of the kind `piece` to come from a
    /// hand onto `to`. On an empty square they always do. On a piece of its
    /// own color the new piece must be strictly larger. On a piece of the
    /// other color it must be strictly larger too, and that color must have
    /// three in a row through the square.
    pub open spec fn may_place(self, piece: Piece, to: Square) -> bool {
        match self.top_at(to) {
            None => true,
            Some(top) => piece.size.covers(top.size) && (top.color == piece.color
                || self.three_in_a_row(top.color, to)),
        }
    }

    /// Whether the rules allow a piece of the kind `piece` to move onto
    /// `to`: the square is empty, or its top piece is strictly smaller.
    pub open spec fn may_move(self, piece: Piece, to: Square) -> bool {
        match self.top_at(to) {
            None => true,
            Some(top) => piece.size.covers(top.size),
        }
    }

    /// Whether `after` has the pieces of this board and one more of the kind
    /// `piece` on `to`.
    pub open spec fn placed(self, piece: Piece, to: Square, after: Board) -> bool {
        forall|q: Piece| #[trigger]
            after.raw(q) == if q == piece {
                self.raw(q).with(to)
            } else {
                self.raw(q)
            }
    }

    /// Whether `after` has the pieces of this board but for one of the kind
    /// `piece`, which has left `from`.
    pub open spec fn lifted(self, piece: Piece, from: Square, after: Board) -> bool {
        forall|q: Piece| #[trigger]
            after.raw(q) == if q == piece {
                self.raw(q).without(from)
            } else {
                self.raw(q)
            }
    }

    /// Whether `after` has the pieces of this board but for one of the kind
    /// `piece`, which has gone from `from` to `to`.
    pub open spec fn moved(self, piece: Piece, from: Square, to: Square, after: Board) -> bool {
        forall|q: Piece| #[trigger]
            after.raw(q) == if q == piece {
                self.raw(q).without(from).with(to)
            } else {
                self.raw(q)
            }
    }

    /// The eight kinds of piece from the smallest to the largest, the black
    /// one of each size before the white one.
    pub open spec fn kind(k: int) -> Piece {
        Piece { color: Color::ALL[k % 2], size: Size::ALL[k / 2] }
    }

    /// The place of a kind of piece in the order from the smallest to the
    /// largest, the black one of each size before the white one.
    pub open spec fn kind_of(p: Piece) -> int {
        2 * p.size.rank() + p.color.index()
    }

    /// The pieces on `sq` among the first `n` kinds, in the order of the
    /// kinds.
    pub open spec fn stack_among(self, sq: Square, n: int) -> Seq<Piece>
        decreases n,
    {
        if n <= 0 {
            Seq::empty()
        } else if self.has(Board::kind(n - 1), sq) {
            self.stack_among(sq, n - 1).push(Board::kind(n - 1))
        } else {
            self.stack_among(sq, n - 1)
        }
    }

    /// The pieces on `sq` from the smallest to the largest, covered ones
    /// included.
    pub open spec fn stack_at(self, sq: Square) -> Seq<Piece> {
        self.stack_among(sq, 8)
    }

    /// The number of pieces of the kind `p` on the board.
    pub open spec fn count(self, p: Piece) -> nat {
        self.raw(p)@.len()
    }

    /// The number of pieces of color `c` on the board.
    pub open spec fn count_color(self, c: Color) -> nat {
        self.count(Piece { color: c, size: Size::Tiny }) + self.count(
            Piece { color: c, size: Size::Small },
        ) + self.count(Piece { color: c, size: Size::Medium }) + self.count(
            Piece { color: c, size: Size::Big },
        )
    }

    /// The number of pieces on the board.
    pub open spec fn total(self) -> nat {
        self.count_color(Color::Black) + self.count_color(Color::White)
    }

    /// Whether the pieces on each square can be a stack: no two pieces of
    /// one size share a square, so that each piece of a square is strictly
    /// larger than the ones below it.
    pub open spec fn stacked(self) -> bool {
        forall|s: Size, sq: Square|
            !(#[trigger] self.has(Piece { color: Color::Black, size: s }, sq) && self.has(
                Piece { color: Color::White, size: s },
                sq,
            ))
    }

    /// Whether the recorded views from above agree with the pieces on the
    /// board.
    pub open spec fn derived(self) -> bool {
        &&& forall|c: Color, sq: Square| #[trigger]
            self.shown(c).contains(sq) <==> self.shows(c, sq)
        &&& self.occupied() == self.shown(Color::Black).union(self.shown(Color::White))
    }

    /// Whether the board is in order: the pieces of each square can be a
    /// stack, and the recorded views from above agree with them.
    pub open spec fn wf(self) -> bool {
        self.stacked() && self.derived()
    }

    /// Returns the board without any piece.
    pub fn new() -> (r: Board)
        ensures
            r.wf(),
            forall|p: Piece| r.raw(p) == BitBoard::nothing(),
    {
        let r = Board {
            bitboards: [BitBoard::empty(); 8],
            color_combined: [BitBoard::empty(); 2],
            combined: BitBoard::empty(),
        };
        proof {
            lemma_membership();
            lemma_same_members(
                r.occupied(),
                r.shown(Color::Black).union(r.shown(Color::White)),
            );
        }
        r
    }

    /// Returns the squares on which a piece of the kind `piece` stands,
    /// covered or not.
    pub fn pieces(&self, piece: Piece) -> (r: BitBoard)
        ensures
            r == self.raw(piece),
    {
        self.bitboards[piece.slot()]
    }

    /// Returns the squares that show `color` from above: those on which a
    /// piece of that color stands with no larger piece of the other color.
    pub fn color_combined(&self, color: Color) -> (r: BitBoard)
        requires
            self.wf(),
        ensures
            r == self.shown(color),
            forall|sq: Square| r.contains(sq) <==> self.shows(color, sq),
    {
        self.color_combined[color.index()]
    }

    /// Returns the squares that hold any piece.
    pub fn combined(&self) -> (r: BitBoard)
        requires
            self.wf(),
        ensures
            r == self.occupied(),
            r == self.shown(Color::Black).union(self.shown(Color::White)),
            forall|sq: Square| r.contains(sq) <==> self.top_at(sq).is_some(),
    {
        proof {
            lemma_membership();
        }
        self.combined
    }

    /// Returns whether any piece stands on `square`.
    pub fn exists_at(&self, square: Square) -> (r: bool)
        requires
            self.wf(),
        ensures
            r == self.occupied().contains(square),
            r == self.top_at(square).is_some(),
            r <==> exists|p: Piece| self.has(p, square),
    {
        proof {
            lemma_membership();
            lemma_shown_is_top_color(*self, square);
            lemma_some_piece(*self, square);
        }
        self.combined & square != BitBoard::empty()
    }

    /// Returns the board that has one more piece, of the kind `piece`, on
    /// `to`, if the rules allow placing it there; else the error
    /// `InvalidPlacing` with the square. The board itself stays as it is.
    pub fn place(&self, piece: Piece, to: Square) -> (r: Result<Board, Error>)
        requires
            self.wf(),
        ensures
            self.may_place(piece, to) ==> r.is_ok(),
            !self.may_place(piece, to) ==> r == Err::<Board, Error>(Error::InvalidPlacing(to)),
            r matches Ok(after) ==> after.wf() && self.placed(piece, to, after),
            r matches Ok(after) ==> after.count(piece) == self.count(piece) + 1 && after.total()
                == self.total() + 1,
            r matches Ok(after) ==> forall|q: Piece|
                q != piece ==> #[trigger] after.count(q) == self.count(q),
            r matches Ok(after) ==> after.top_at(to) == Some(piece) && forall|sq: Square|
                sq != to ==> after.top_at(sq) == self.top_at(sq),
    {
        let mut board = *self;
        if !board.can_place(piece, to) {
            return Err(Error::InvalidPlacing(to));
        }
        board.set(piece, to);
        proof {
            lemma_placing(*self, piece, to, board);
        }
        Ok(board)
    }

    /// Returns the board on which the top piece of `from` has gone to `to`,
    /// if there is a piece on `from` and the rules allow it to move to `to`;
    /// else the error `InvalidMoving` with both squares. The board itself
    /// stays as it is.
    pub fn move_piece(&self, from: Square, to: Square) -> (r: Result<Board, Error>)
        requires
            self.wf(),
        ensures
            match self.top_at(from) {
                Some(piece) if self.may_move(piece, to) => r.is_ok(),
                _ => r == Err::<Board, Error>(Error::InvalidMoving { from, to }),
            },
            r matches Ok(after) ==> after.wf() && self.moved(
                self.top_at(from).unwrap(),
                from,
                to,
                after,
            ),
            r matches Ok(after) ==> after.total() == self.total() && forall|p: Piece| #[trigger]
                after.count(p) == self.count(p),
            r matches Ok(after) ==> after.top_at(to) == self.top_at(from) && forall|sq: Square|
                sq != from && sq != to ==> after.top_at(sq) == self.top_at(sq),
    {
        let mut board = *self;
        let piece = match board.get_top(from) {
            Some(result) => result,
            None => {
                return Err(Error::InvalidMoving { from, to });
            },
        };
        if !self.can_move(piece, to) {
            return Err(Error::InvalidMoving { from, to });
        }
        board.unset(piece, from);
        let ghost lifted = board;
        proof {
            lemma_lifting(*self, piece, from, lifted);
            assert(lifted.top_at(to) == self.top_at(to));
        }
        board.set(piece, to);
        proof {
            lemma_placing(lifted, piece, to, board);
            assert forall|q: Piece| #[trigger]
                board.raw(q) == if q == piece {
                    self.raw(q).without(from).with(to)
                } else {
                    self.raw(q)
                } by {
                assert(lifted.raw(q) == if q == piece {
                    self.raw(q).without(from)
                } else {
                    self.raw(q)
                });
            }
        }
        Ok(board)
    }

    /// Returns whether the rules allow a piece of the kind `piece` to come
    /// from a hand onto `to`.
    pub fn can_place(&self, piece: Piece, to: Square) -> (r: bool)
        requires
            self.wf(),
        ensures
            r == self.may_place(piece, to),
    {
        proof {
            lemma_membership();
            lemma_shown_is_top_color(*self, to);
        }
        if self.combined & to == BitBoard::empty() {
            return true;
        }
        let Piece { color, size } = piece;
        if self.color_combined[color.reverse().index()] & to != BitBoard::empty() {
            if self.has_3_in_a_row(color.reverse(), to) {
                size.covers(self.get_top(to).unwrap().size)
            } else {
                false
            }
        } else {
            size.covers(self.get_top(to).unwrap().size)
        }
    }

    /// Returns whether the rules allow a piece of the kind `piece` to move
    /// onto `to`.
    pub fn can_move(&self, piece: Piece, to: Square) -> (r: bool)
        requires
            self.wf(),
        ensures
            r == self.may_move(piece, to),
    {
        if let Some(top) = self.get_top(to) {
            piece.size.covers(top.size)
        } else {
            true
        }
    }

    /// Returns whether `color` has won: whether the four squares of some
    /// column, row or diagonal all show that color from above.
    pub fn has_won(&self, color: Color) -> (r: bool)
        requires
            self.wf(),
        ensures
            r == self.wins(color),
    {
        let color_combined = &self.color_combined[color.index()];
        let masks = BitBoard::line_masks();
        let mut i: usize = 0;
        while i < 10
            invariant
                i <= 10,
                *color_combined == self.shown(color),
                forall|j: int| 0 <= j < 10 ==> masks[j] == BitBoard::line(j),
                forall|j: int| 0 <= j < i ==> !self.line_won(color, j),
            decreases 10 - i,
        {
            let mask = masks[i];
            if color_combined & mask == mask {
                assert(self.line_won(color, i as int));
                return true;
            }
            i = i + 1;
        }
        false
    }

    /// Returns the piece on top of `square`, or `None` if the square is
    /// empty.
    pub fn get_top(&self, square: Square) -> (r: Option<Piece>)
        requires
            self.wf(),
        ensures
            r == self.top_at(square),
    {
        proof {
            lemma_membership();
            lemma_shown_is_top_color(*self, square);
        }
        if self.combined & square == BitBoard::empty() {
            return None;
        }
        let color = if self.color_combined[Color::Black.index()] & square != BitBoard::empty() {
            Color::Black
        } else {
            Color::White
        };
        let sizes = Size::ALL;
        let mut result = Size::Tiny;
        let mut i: usize = 0;
        while i < 4
            invariant
                i <= 4,
                sizes == Size::ALL,
                result == self.largest_own_below(color, i as int, square),
            decreases 4 - i,
        {
            let size = sizes[i];
            if self.pieces(Piece::new(color, size)) & square != BitBoard::empty() {
                result = size;
            }
            i = i + 1;
        }
        Some(Piece::new(color, result))
    }

    /// Puts a piece of the kind `piece` on `square`, which is empty or has
    /// a strictly smaller piece on top.
    fn set(&mut self, piece: Piece, square: Square)
        requires
            old(self).wf(),
            old(self).may_move(piece, square),
        ensures
            final(self).wf(),
            old(self).placed(piece, square, *final(self)),
    {
        let slot: usize = piece.slot();
        let now = self.bitboards[slot] | square;
        self.bitboards[slot] = now;
        let ghost raised = *self;
        proof {
            assert forall|q: Piece| #[trigger]
                raised.raw(q) == if q == piece {
                    old(self).raw(q).with(square)
                } else {
                    old(self).raw(q)
                } by {
                assert(q != piece ==> q.slot() != piece.slot());
            }
        }
        self.combine();
        proof {
            assert forall|q: Piece| #[trigger]
                self.raw(q) == if q == piece {
                    old(self).raw(q).with(square)
                } else {
                    old(self).raw(q)
                } by {
                assert(self.raw(q) == raised.raw(q));
            }
            lemma_placing(*old(self), piece, square, *self);
        }
    }

    /// Takes the piece of the kind `piece`, which is the top of `square`,
    /// off that square.
    fn unset(&mut self, piece: Piece, square: Square)
        requires
            old(self).wf(),
            old(self).top_at(square) == Some(piece),
        ensures
            final(self).wf(),
            old(self).lifted(piece, square, *final(self)),
    {
        let slot: usize = piece.slot();
        let now = self.bitboards[slot] & BitBoard::from_square(square).not();
        self.bitboards[slot] = now;
        let ghost lowered = *self;
        proof {
            assert forall|q: Piece| #[trigger]
                lowered.raw(q) == if q == piece {
                    old(self).raw(q).without(square)
                } else {
                    old(self).raw(q)
                } by {
                assert(q != piece ==> q.slot() != piece.slot());
            }
        }
        self.combine();
        proof {
            assert forall|q: Piece| #[trigger]
                self.raw(q) == if q == piece {
                    old(self).raw(q).without(square)
                } else {
                    old(self).raw(q)
                } by {
                assert(self.raw(q) == lowered.raw(q));
            }
            lemma_lifting(*old(self), piece, square, *self);
        }
    }

    /// Returns whether some line through `square` has exactly three squares
    /// that show `color` from above.
    fn has_3_in_a_row(&self, color: Color, square: Square) -> (r: bool)
        requires
            self.wf(),
        ensures
            r == self.three_in_a_row(color, square),
    {
        let color_combined = &self.color_combined[color.index()];
        let masks = BitBoard::line_masks();
        let mut i: usize = 0;
        while i < 10
            invariant
                i <= 10,
                *color_combined == self.shown(color),
                forall|j: int| 0 <= j < 10 ==> masks[j] == BitBoard::line(j),
                forall|j: int| 0 <= j < i ==> !self.line_threatens(color, j, square),
            decreases 10 - i,
        {
            let mask = masks[i];
            if mask & square != BitBoard::empty() && (color_combined & mask).popcount() == 3 {
                assert(self.line_threatens(color, i as int, square));
                return true;
            }
            i = i + 1;
        }
        false
    }

    /// Returns the pieces on `square` from the smallest to the largest,
    /// covered ones included.
    pub fn pieces_at(&self, square: Square) -> (r: PieceSet)
        ensures
            r@ == self.stack_at(square),
    {
        let sizes = Size::ALL;
        let colors = Color::ALL;
        let mut pieces: Vec<Piece> = Vec::new();
        let mut k: usize = 0;
        while k < 8
            invariant
                k <= 8,
                sizes == Size::ALL,
                colors == Color::ALL,
                pieces@ == self.stack_among(square, k as int),
            decreases 8 - k,
        {
            let piece = Piece::new(colors[k % 2], sizes[k / 2]);
            proof {
                lemma_membership();
            }
            if self.pieces(piece) & square != BitBoard::empty() {
                pieces.push(piece);
            }
            k = k + 1;
        }
        PieceSet::from_vec(pieces)
    }

    /// Returns, for each square in the row-by-row listing, the pieces on it
    /// from the smallest to the largest, covered ones included.
    pub fn piece_sets(&self) -> (r: Vec<PieceSet>)
        ensures
            r@.len() == 16,
            forall|i: int| 0 <= i < 16 ==> (#[trigger] r@[i])@ == self.stack_at(Square::at(i)),
    {
        let all = Square::ALL;
        let mut result: Vec<PieceSet> = Vec::new();
        let mut i: usize = 0;
        while i < 16
            invariant
                i <= 16,
                all == Square::ALL,
                result@.len() == i,
                forall|j: int| 0 <= j < i ==> (#[trigger] result@[j])@ == self.stack_at(Square::at(j)),
            decreases 16 - i,
        {
            let set = self.pieces_at(all[i]);
            result.push(set);
            i = i + 1;
        }
        result
    }

    /// Returns the squares that show `color` from above, worked out from
    /// where the pieces stand: the squares of the Big pieces of that color,
    /// and those of each smaller piece on which no strictly larger piece of
    /// the other color stands.
    fn view_from_above(&self, color: Color) -> (r: BitBoard)
        ensures
            forall|sq: Square| r.contains(sq) <==> self.shows(color, sq),
    {
        let sizes = Size::ALL;
        let other = color.reverse();
        let mut result = self.pieces(Piece::new(color, Size::Big));
        let mut k: usize = 3;
        while k > 0
            invariant
                k <= 3,
                sizes == Size::ALL,
                other == color.opponent(),
                forall|sq: Square| result.contains(sq) <==> self.shows_from(color, k as int, sq),
            decreases k,
        {
            k = k - 1;
            let size = sizes[k];
            let mut bigger = BitBoard::empty();
            let mut j: usize = k + 1;
            proof {
                lemma_membership();
            }
            while j < 4
                invariant
                    k < j <= 4,
                    sizes == Size::ALL,
                    size == sizes[k as int],
                    forall|sq: Square|
                        bigger.contains(sq) <==> self.has_larger_below(other, size, j as int, sq),
                decreases 4 - j,
            {
                proof {
                    lemma_membership();
                }
                bigger = bigger | self.pieces(Piece::new(other, sizes[j]));
                j = j + 1;
            }
            result = result | (bigger.not() & self.pieces(Piece::new(color, size)));
        }
        result
    }

    /// Works out the views from above anew from where the pieces stand.
    fn combine(&mut self)
        ensures
            final(self).derived(),
            forall|p: Piece| final(self).raw(p) == old(self).raw(p),
    {
        let black = self.view_from_above(Color::Black);
        let white = self.view_from_above(Color::White);
        self.color_combined = [black, white];
        self.combined = black | white;
    }
}

impl IntoIterator for Board {
    type Item = PieceSet;

    type IntoIter = std::vec::IntoIter<PieceSet>;

    /// Goes through the squares in the row-by-row listing and gives, for
    /// each, the pieces on it from the smallest to the largest, covered
    /// ones included.
    fn into_iter(self) -> (r: std::vec::IntoIter<PieceSet>)
        ensures
            r.remaining().len() == 16,
            forall|i: int|
                0 <= i < 16 ==> (#[trigger] r.remaining()[i])@ == self.stack_at(Square::at(i)),
    {
        self.piece_sets().into_iter()
    }
}

impl IntoIterator for &Board {
    type Item = PieceSet;

    type IntoIter = std::vec::IntoIter<PieceSet>;

    /// Goes through the squares in the row-by-row listing and gives, for
    /// each, the pieces on it from the smallest to the largest, covered
    /// ones included.
    fn into_iter(self) -> (r: std::vec::IntoIter<PieceSet>)
        ensures
            r.remaining().len() == 16,
            forall|i: int|
                0 <= i < 16 ==> (#[trigger] r.remaining()[i])@ == self.stack_at(Square::at(i)),
    {
        self.piece_sets().into_iter()
    }
}

/// Under a well-formed board a square shows the color of its top piece, and
/// no color if it is empty.
pub proof fn lemma_shown_is_top_color(b: Board, sq: Square)
    requires
        b.wf(),
    ensures
        forall|c: Color|
            b.shown(c).contains(sq) <==> (b.top_at(sq) matches Some(top) && top.color == c),
        b.occupied().contains(sq) <==> b.top_at(sq).is_some(),
{
    lemma_membership();
    assert(b.shown(Color::Black).contains(sq) <==> b.shows(Color::Black, sq));
    assert(b.shown(Color::White).contains(sq) <==> b.shows(Color::White, sq));
    assert(!(b.has(Piece { color: Color::Black, size: Size::Big }, sq) && b.has(
        Piece { color: Color::White, size: Size::Big },
        sq,
    )));
    assert(!(b.has(Piece { color: Color::Black, size: Size::Medium }, sq) && b.has(
        Piece { color: Color::White, size: Size::Medium },
        sq,
    )));
    assert(!(b.has(Piece { color: Color::Black, size: Size::Small }, sq) && b.has(
        Piece { color: Color::White, size: Size::Small },
        sq,
    )));
    assert(!(b.has(Piece { color: Color::Black, size: Size::Tiny }, sq) && b.has(
        Piece { color: Color::White, size: Size::Tiny },
        sq,
    )));
}

/// A square has a top piece exactly when some piece stands on it.
pub proof fn lemma_some_piece(b: Board, sq: Square)
    ensures
        b.top_at(sq).is_some() <==> exists|p: Piece| b.has(p, sq),
{
    if b.top_at(sq).is_some() {
        assert(b.has(b.top_at(sq).unwrap(), sq));
    }
    if exists|p: Piece| b.has(p, sq) {
        let p = choose|p: Piece| b.has(p, sq);
        assert(b.has_size(p.size, sq)) by {
            assert(p == Piece { color: p.color, size: p.size });
            if p.color == Color::Black {
                assert(b.has(Piece { color: Color::Black, size: p.size }, sq));
            } else {
                assert(b.has(Piece { color: Color::White, size: p.size }, sq));
            }
        }
    }
}

/// What stands where once a piece has been placed: the pieces that stood
/// there before, and the new one.
pub proof fn lemma_placed_pieces(b: Board, piece: Piece, to: Square, after: Board)
    requires
        b.placed(piece, to, after),
    ensures
        forall|q: Piece, sq: Square| #[trigger]
            after.has(q, sq) <==> b.has(q, sq) || (q == piece && sq == to),
{
    lemma_membership();
    assert forall|q: Piece, sq: Square| #[trigger]
        after.has(q, sq) <==> b.has(q, sq) || (q == piece && sq == to) by {
        assert(after.raw(q) == if q == piece {
            b.raw(q).with(to)
        } else {
            b.raw(q)
        });
    }
}

/// What stands where once a piece has been lifted: the pieces that stood
/// there before, but for the lifted one.
pub proof fn lemma_lifted_pieces(b: Board, piece: Piece, from: Square, after: Board)
    requires
        b.lifted(piece, from, after),
    ensures
        forall|q: Piece, sq: Square| #[trigger]
            after.has(q, sq) <==> b.has(q, sq) && !(q == piece && sq == from),
{
    lemma_membership();
    assert forall|q: Piece, sq: Square| #[trigger]
        after.has(q, sq) <==> b.has(q, sq) && !(q == piece && sq == from) by {
        assert(after.raw(q) == if q == piece {
            b.raw(q).without(from)
        } else {
            b.raw(q)
        });
    }
}

/// Placing a piece on an empty square or on a strictly smaller top piece
/// keeps the squares' stacks in order, makes the piece the top of its
/// square, leaves the other squares' tops as they were, and adds one to the
/// number of pieces of its kind and to no other.
pub proof fn lemma_placing(b: Board, piece: Piece, to: Square, after: Board)
    requires
        b.stacked(),
        b.may_move(piece, to),
        b.placed(piece, to, after),
    ensures
        after.stacked(),
        after.top_at(to) == Some(piece),
        forall|sq: Square| sq != to ==> after.top_at(sq) == b.top_at(sq),
        after.count(piece) == b.count(piece) + 1,
        forall|q: Piece| q != piece ==> after.count(q) == b.count(q),
        after.total() == b.total() + 1,
{
    lemma_placed_pieces(b, piece, to, after);
    assert(!b.has_size(piece.size, to));
    assert(after.has(piece, to));
    assert(piece == Piece { color: piece.color, size: piece.size });
    crate::bitboard::lemma_views(b.raw(piece), b.raw(piece), to);
    assert forall|q: Piece| q != piece implies after.count(q) == b.count(q) by {
        assert(after.raw(q) == b.raw(q));
    }
    assert(after.raw(piece) == b.raw(piece).with(to));
    assert(!b.raw(piece)@.contains(to));
}

/// Lifting the top piece of a square keeps the squares' stacks in order,
/// leaves the other squares' tops as they were, and takes one from the
/// number of pieces of its kind and from no other.
pub proof fn lemma_lifting(b: Board, piece: Piece, from: Square, after: Board)
    requires
        b.stacked(),
        b.top_at(from) == Some(piece),
        b.lifted(piece, from, after),
    ensures
        after.stacked(),
        forall|sq: Square| sq != from ==> after.top_at(sq) == b.top_at(sq),
        after.count(piece) + 1 == b.count(piece),
        forall|q: Piece| q != piece ==> after.count(q) == b.count(q),
        after.total() + 1 == b.total(),
        forall|q: Piece| after.may_move(q, from) <== b.may_move(q, from),
{
    lemma_lifted_pieces(b, piece, from, after);
    assert(b.has(piece, from));
    assert(piece == Piece { color: piece.color, size: piece.size });
    crate::bitboard::lemma_views(b.raw(piece), b.raw(piece), from);
    assert forall|q: Piece| q != piece implies after.count(q) == b.count(q) by {
        assert(after.raw(q) == b.raw(q));
    }
    assert(after.raw(piece) == b.raw(piece).without(from));
    assert(b.raw(piece)@.contains(from));
}

/// A line is won by a color exactly when each of its four squares shows
/// that color from above.
pub proof fn lemma_line_won(b: Board, c: Color, i: int)
    requires
        b.wf(),
        0 <= i < 10,
    ensures
        b.line_won(c, i) <==> forall|sq: Square| BitBoard::on_line(i, sq) ==> b.shows(c, sq),
{
    lemma_membership();
    let line = BitBoard::line(i);
    assert forall|sq: Square| line.contains(sq) <==> BitBoard::on_line(i, sq) by {
        crate::bitboard::lemma_lines(i, sq);
    }
    if b.line_won(c, i) {
        assert forall|sq: Square| BitBoard::on_line(i, sq) implies b.shows(c, sq) by {
            assert(b.shown(c).intersection(line).contains(sq));
            assert(b.shown(c).contains(sq));
        }
    }
    if forall|sq: Square| BitBoard::on_line(i, sq) ==> b.shows(c, sq) {
        assert forall|sq: Square| b.shown(c).intersection(line).contains(sq) == line.contains(
            sq,
        ) by {
            assert(b.shown(c).contains(sq) <==> b.shows(c, sq));
        }
        lemma_same_members(b.shown(c).intersection(line), line);
    }
}

/// The squares of a line that show a color from above are those that lie on
/// the line by column and row and show the color: a line threatens where
/// exactly three of its four squares show the color.
pub proof fn lemma_line_shown(b: Board, c: Color, i: int)
    requires
        b.wf(),
        0 <= i < 10,
    ensures
        b.shown(c).intersection(BitBoard::line(i))@ == Set::new(
            |sq: Square| BitBoard::on_line(i, sq) && b.shows(c, sq),
        ),
{
    lemma_membership();
    let line = BitBoard::line(i);
    assert forall|sq: Square|
        b.shown(c).intersection(line).contains(sq) <==> BitBoard::on_line(i, sq) && b.shows(
            c,
            sq,
        ) by {
        crate::bitboard::lemma_lines(i, sq);
        assert(b.shown(c).contains(sq) <==> b.shows(c, sq));
    }
    assert(b.shown(c).intersection(line)@ =~= Set::new(
        |sq: Square| BitBoard::on_line(i, sq) && b.shows(c, sq),
    ));
}

/// On a board without any piece nobody has won.
pub proof fn lemma_empty_board(b: Board)
    requires
        b.wf(),
        forall|p: Piece| b.raw(p) == BitBoard::nothing(),
    ensures
        !b.wins(Color::Black),
        !b.wins(Color::White),
        forall|p: Piece| b.count(p) == 0,
        b.total() == 0,
        forall|sq: Square| b.top_at(sq).is_none(),
{
    lemma_membership();
    assert forall|c: Color, i: int| 0 <= i < 10 implies !b.line_won(c, i) by {
        lemma_line_won(b, c, i);
        let sq = if i < 4 {
            Square::at(i)
        } else if i < 8 {
            Square::at(4 * (i - 4))
        } else if i == 8 {
            Square::A1
        } else {
            Square::D1
        };
        crate::square::lemma_at_index(sq.index());
        assert(BitBoard::on_line(i, sq));
        assert(!b.shows(c, sq));
    }
    assert forall|p: Piece| b.count(p) == 0 by {
        crate::bitboard::lemma_views(b.raw(p), b.raw(p), Square::A1);
    }
}

/// What stands where once a piece has moved: the pieces that stood there
/// before, but that the moved one stands on its new square.
pub proof fn lemma_moved_pieces(b: Board, piece: Piece, from: Square, to: Square, after: Board)
    requires
        b.moved(piece, from, to, after),
    ensures
        forall|q: Piece, sq: Square| #[trigger]
            after.has(q, sq) <==> (b.has(q, sq) && !(q == piece && sq == from)) || (q == piece
                && sq == to),
{
    lemma_membership();
    assert forall|q: Piece, sq: Square| #[trigger]
        after.has(q, sq) <==> (b.has(q, sq) && !(q == piece && sq == from)) || (q == piece && sq
            == to) by {
        assert(after.raw(q) == if q == piece {
            b.raw(q).without(from).with(to)
        } else {
            b.raw(q)
        });
    }
}

/// Moving the top piece of a square onto an empty square or onto a strictly
/// smaller top piece keeps the squares' stacks in order, makes the piece the
/// top of its new square, leaves the tops of all squares but these two as
/// they were, and leaves the number of pieces of each kind as it was.
pub proof fn lemma_moving(b: Board, piece: Piece, from: Square, to: Square, after: Board)
    requires
        b.stacked(),
        b.top_at(from) == Some(piece),
        b.may_move(piece, to),
        b.moved(piece, from, to, after),
    ensures
        from != to,
        after.stacked(),
        after.top_at(to) == Some(piece),
        forall|sq: Square| sq != from && sq != to ==> after.top_at(sq) == b.top_at(sq),
        forall|q: Piece| after.count(q) == b.count(q),
        after.total() == b.total(),
{
    lemma_moved_pieces(b, piece, from, to, after);
    assert(b.has(piece, from));
    assert(!b.has_size(piece.size, to));
    assert(piece == Piece { color: piece.color, size: piece.size });
    assert(after.has(piece, to));
    let lifted = b.raw(piece).without(from);
    crate::bitboard::lemma_views(b.raw(piece), b.raw(piece), from);
    crate::bitboard::lemma_views(lifted, lifted, to);
    assert forall|q: Piece| after.count(q) == b.count(q) by {
        if q == piece {
            assert(after.raw(q) == lifted.with(to));
            assert(b.raw(piece)@.contains(from));
            assert(!lifted@.contains(to));
        } else {
            assert(after.raw(q) == b.raw(q));
        }
    }
}

/// The top piece of a square is the largest piece on it: it stands there,
/// and no piece on the square is larger. Where the stacks are in order, no
/// other piece on the square is even as large.
pub proof fn lemma_top_is_largest(b: Board, sq: Square, p: Piece)
    ensures
        b.top_at(sq) == Some(p) ==> b.has(p, sq) && forall|q: Piece|
            b.has(q, sq) ==> q.size.rank() <= p.size.rank(),
        b.stacked() && b.top_at(sq) == Some(p) ==> forall|q: Piece|
            b.has(q, sq) && q != p ==> q.size.rank() < p.size.rank(),
        b.stacked() && b.has(p, sq) && (forall|q: Piece|
            b.has(q, sq) ==> q.size.rank() <= p.size.rank()) ==> b.top_at(sq) == Some(p),
{
    assert(p == Piece { color: p.color, size: p.size });
    if b.top_at(sq) == Some(p) {
        assert forall|q: Piece| b.has(q, sq) implies q.size.rank() <= p.size.rank() by {
            lemma_has_size(b, q, sq);
        }
        if b.stacked() {
            assert forall|q: Piece| b.has(q, sq) && q != p implies q.size.rank()
                < p.size.rank() by {
                lemma_has_size(b, q, sq);
                assert(q == Piece { color: q.color, size: q.size });
            }
        }
    }
    if b.stacked() && b.has(p, sq) && (forall|q: Piece|
        b.has(q, sq) ==> q.size.rank() <= p.size.rank()) {
        lemma_has_size(b, p, sq);
        let top = b.top_at(sq).unwrap();
        assert(b.has(top, sq));
        assert(top.size.rank() <= p.size.rank());
        assert(top == Piece { color: top.color, size: top.size });
    }
}

/// Where a piece stands, a piece of its size stands.
pub proof fn lemma_has_size(b: Board, q: Piece, sq: Square)
    requires
        b.has(q, sq),
    ensures
        b.has_size(q.size, sq),
{
    assert(q == Piece { color: q.color, size: q.size });
    if q.color == Color::Black {
        assert(b.has(Piece { color: Color::Black, size: q.size }, sq));
    } else {
        assert(b.has(Piece { color: Color::White, size: q.size }, sq));
    }
}

/// A well-formed board is known by where its pieces stand.
pub proof fn lemma_known_by_pieces(a: Board, b: Board)
    requires
        a.wf(),
        b.wf(),
        forall|p: Piece| a.raw(p) == b.raw(p),
    ensures
        a == b,
{
    lemma_membership();
    assert forall|i: int| 0 <= i < 8 implies a.bitboards[i] == b.bitboards[i] by {
        let p = Piece {
            color: if i < 4 {
                Color::Black
            } else {
                Color::White
            },
            size: Size::ALL[i % 4],
        };
        assert(p.slot() == i);
        assert(a.raw(p) == b.raw(p));
    }
    assert(a.bitboards =~= b.bitboards);
    assert forall|c: Color| a.shown(c) == b.shown(c) by {
        assert forall|sq: Square| a.shown(c).contains(sq) == b.shown(c).contains(sq) by {
            assert(a.shows(c, sq) == b.shows(c, sq));
        }
        lemma_same_members(a.shown(c), b.shown(c));
    }
    assert forall|i: int| 0 <= i < 2 implies a.color_combined[i] == b.color_combined[i] by {
        let c = if i == 0 {
            Color::Black
        } else {
            Color::White
        };
        assert(a.shown(c) == b.shown(c));
    }
    assert(a.color_combined =~= b.color_combined);
}

/// The squares that hold any piece are those that show either color from
/// above, and they are those on which some piece stands.
pub proof fn lemma_occupied(b: Board, sq: Square)
    requires
        b.wf(),
    ensures
        b.occupied() == b.shown(Color::Black).union(b.shown(Color::White)),
        b.occupied().contains(sq) <==> exists|p: Piece| b.has(p, sq),
        !(b.shown(Color::Black).contains(sq) && b.shown(Color::White).contains(sq)),
{
    lemma_shown_is_top_color(b, sq);
    lemma_some_piece(b, sq);
}

/// The pieces listed for a square are those that stand on it, each once,
/// from the smallest to the largest; where the stacks are in order the
/// sizes rise strictly and the last piece listed is the top of the square.
pub proof fn lemma_stack(b: Board, sq: Square)
    ensures
        forall|p: Piece| b.stack_at(sq).contains(p) <==> b.has(p, sq),
        b.stack_at(sq).no_duplicates(),
        forall|i: int, j: int|
            0 <= i < j < b.stack_at(sq).len() ==> b.stack_at(sq)[i].size.rank() <= b.stack_at(
                sq,
            )[j].size.rank(),
        b.stacked() ==> forall|i: int, j: int|
            0 <= i < j < b.stack_at(sq).len() ==> b.stack_at(sq)[i].size.rank() < b.stack_at(
                sq,
            )[j].size.rank(),
        b.stack_at(sq).len() == 0 <==> b.top_at(sq).is_none(),
        b.stacked() && b.stack_at(sq).len() > 0 ==> b.top_at(sq) == Some(b.stack_at(sq).last()),
{
    lemma_stack_among(b, sq, 8);
    let stack = b.stack_at(sq);
    assert forall|p: Piece| stack.contains(p) <==> b.has(p, sq) by {
        if b.has(p, sq) {
            assert(Board::kind(Board::kind_of(p)) == p);
        }
        if stack.contains(p) {
            let i = choose|i: int| 0 <= i < stack.len() && stack[i] == p;
            assert(b.has(stack[i], sq));
        }
    }
    assert forall|i: int, j: int| 0 <= i < j < stack.len() implies stack[i].size.rank()
        <= stack[j].size.rank() && (b.stacked() ==> stack[i].size.rank()
        < stack[j].size.rank()) by {
        assert(Board::kind_of(stack[i]) < Board::kind_of(stack[j]));
        assert(b.has(stack[i], sq) && b.has(stack[j], sq));
        assert(stack[i] == Piece { color: stack[i].color, size: stack[i].size });
        assert(stack[j] == Piece { color: stack[j].color, size: stack[j].size });
    }
    if stack.len() == 0 {
        if b.top_at(sq).is_some() {
            assert(b.has(b.top_at(sq).unwrap(), sq));
            assert(stack.contains(b.top_at(sq).unwrap()));
        }
    } else if b.stacked() {
        let last = stack.last();
        assert(b.has(last, sq));
        assert forall|q: Piece| b.has(q, sq) implies q.size.rank() <= last.size.rank() by {
            assert(stack.contains(q));
            let i = choose|i: int| 0 <= i < stack.len() && stack[i] == q;
            if i < stack.len() - 1 {
                assert(stack[i].size.rank() < stack[stack.len() - 1].size.rank());
            }
        }
        lemma_top_is_largest(b, sq, last);
    }
}

/// The pieces listed among the first `n` kinds are the pieces of those
/// kinds that stand on the square, in the order of the kinds.
pub proof fn lemma_stack_among(b: Board, sq: Square, n: int)
    requires
        0 <= n <= 8,
    ensures
        forall|i: int|
            0 <= i < b.stack_among(sq, n).len() ==> b.has(#[trigger] b.stack_among(sq, n)[i], sq)
                && 0 <= Board::kind_of(b.stack_among(sq, n)[i]) < n,
        forall|k: int|
            0 <= k < n && b.has(#[trigger] Board::kind(k), sq) ==> b.stack_among(sq, n).contains(
                Board::kind(k),
            ),
        forall|i: int, j: int|
            0 <= i < j < b.stack_among(sq, n).len() ==> Board::kind_of(
                #[trigger] b.stack_among(sq, n)[i],
            ) < Board::kind_of(#[trigger] b.stack_among(sq, n)[j]),
    decreases n,
{
    if n > 0 {
        lemma_stack_among(b, sq, n - 1);
        let before = b.stack_among(sq, n - 1);
        let now = b.stack_among(sq, n);
        let kind = Board::kind(n - 1);
        assert(Board::kind_of(kind) == n - 1);
        if b.has(kind, sq) {
            assert(now == before.push(kind));
            assert forall|k: int|
                0 <= k < n && b.has(#[trigger] Board::kind(k), sq) implies now.contains(
                Board::kind(k),
            ) by {
                if k < n - 1 {
                    assert(before.contains(Board::kind(k)));
                    let i = choose|i: int| 0 <= i < before.len() && before[i] == Board::kind(k);
                    assert(now[i] == Board::kind(k));
                } else {
                    assert(now[now.len() - 1] == Board::kind(k));
                }
            }
        } else {
            assert(now == before);
        }
    }
}

} // verus!
