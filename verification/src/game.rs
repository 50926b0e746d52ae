//! A match: the board, both hands, whose turn it is, and who has won.

use vstd::prelude::*;
use crate::board::Board;
use crate::color::Color;
use crate::error::Error;
use crate::hand::Hand;
use crate::piece::Piece;
use crate::piece::Size;
use crate::square::Square;

verus! {

/// What a player can do on their turn.
#[derive(PartialEq, Eq, Structural, PartialOrd, Ord, Clone, Copy, Debug, Hash)]
pub enum Action {
    /// Move the top piece of `from` onto `to`.
    Move { from: Square, to: Square },
    /// Take the top piece of the pile that `index` selects in the hand of
    /// the player to move, and place it on `to`.
    PlaceFromHand { index: usize, to: Square },
}

/// How far the match has come.
#[derive(PartialEq, Eq, Structural, PartialOrd, Ord, Clone, Copy, Debug, Hash)]
pub enum Status {
    OnGoing,
    BlackWins,
    WhiteWins,
}

/// A match of two players.
#[derive(Debug)]
pub struct Game {
    board: Board,
    hands: [Hand; 2],
    turn: Color,
    status: Status,
}

impl Clone for Game {
    /// Returns a match in the same state.
    fn clone(&self) -> (r: Game)
        ensures
            r.board() == self.board(),
            self.same_hands(&r),
            r.turn() == self.turn(),
            r.status() == self.status(),
            self.wf() ==> r.wf(),
    {
        let r = Game {
            board: self.board,
            hands: [self.hands[0].clone(), self.hands[1].clone()],
            turn: self.turn,
            status: self.status,
        };
        proof {
            if self.wf() {
                assert forall|p: Piece| #[trigger] r.supply(p) == 3 by {
                    assert(self.supply(p) == 3);
                    crate::hand::lemma_same_piles(*self.hand(p.color), *r.hand(p.color), p);
                }
            }
        }
        r
    }
}

impl Game {
    /// The board of the match.
    pub closed spec fn spec_board(&self) -> &Board {
        &self.board
    }

    /// The hand of the player of color `c`.
    pub closed spec fn spec_hand(&self, c: Color) -> &Hand {
        &self.hands[c.index() as int]
    }

    /// The color of the player to move.
    pub closed spec fn spec_turn(&self) -> Color {
        self.turn
    }

    /// How far the match has come.
    pub closed spec fn spec_status(&self) -> Status {
        self.status
    }

    /// What a board means for the match: a color has won if the squares of
    /// some line all show it from above. If both colors have such a line,
    /// White has won.
    pub open spec fn outcome(b: Board) -> Status {
        if b.wins(Color::White) {
            Status::WhiteWins
        } else if b.wins(Color::Black) {
            Status::BlackWins
        } else {
            Status::OnGoing
        }
    }

    /// Whether the match is in order: the board is, each hand is one of
    /// its color, the status is what the board means, and of each kind of
    /// piece three exist, on the board or in the hand of its color.
    pub open spec fn wf(&self) -> bool {
        &&& self.board().wf()
        &&& self.hand(Color::Black).wf(Color::Black)
        &&& self.hand(Color::White).wf(Color::White)
        &&& self.status() == Game::outcome(*self.board())
        &&& self.supplied()
    }

    /// How many pieces of the kind `p` are in the match: those on the
    /// board and those in the hand of their color.
    pub open spec fn supply(&self, p: Piece) -> nat {
        self.board().count(p) + self.hand(p.color).count(p)
    }

    /// Whether three pieces of each kind are in the match.
    pub open spec fn supplied(&self) -> bool {
        forall|p: Piece| #[trigger] self.supply(p) == 3
    }

    /// Returns a new match: the board is empty, both hands are full, Black
    /// is to move and nobody has won.
    pub fn new() -> (r: Game)
        ensures
            r.wf(),
            forall|p: Piece| r.board().raw(p) == crate::bitboard::BitBoard::nothing(),
            forall|c: Color, i: int| 0 <= i < 3 ==> r.hand(c).pile(i) == Hand::initial_pile(c),
            r.turn() == Color::Black,
            r.status() == Status::OnGoing,
    {
        let r = Game {
            board: Board::new(),
            hands: [Hand::new(Color::Black), Hand::new(Color::White)],
            turn: Color::Black,
            status: Status::OnGoing,
        };
        proof {
            crate::board::lemma_empty_board(r.board);
            assert forall|p: Piece| #[trigger] r.supply(p) == 3 by {
                crate::hand::lemma_count_full(*r.hand(p.color), p.color, p);
            }
        }
        r
    }

    /// Returns the board.
    #[verifier::when_used_as_spec(spec_board)]
    pub fn board(&self) -> (r: &Board)
        ensures
            r == self.spec_board(),
    {
        &self.board
    }

    /// Returns the hand of the player of the given color.
    #[verifier::when_used_as_spec(spec_hand)]
    pub fn hand(&self, color: Color) -> (r: &Hand)
        ensures
            r == self.spec_hand(color),
    {
        &self.hands[color.index()]
    }

    /// Returns the color of the player to move.
    #[verifier::when_used_as_spec(spec_turn)]
    pub fn turn(&self) -> (r: Color)
        ensures
            r == self.spec_turn(),
    {
        self.turn
    }

    /// Returns how far the match has come.
    #[verifier::when_used_as_spec(spec_status)]
    pub fn status(&self) -> (r: Status)
        ensures
            r == self.spec_status(),
    {
        self.status
    }

    /// The piece that the player to move would take from the pile that
    /// `index` selects: the top piece of that pile, or `None` if the pile is
    /// empty.
    pub open spec fn offered(&self, index: usize) -> Option<Piece> {
        Hand::top_of(self.hand(self.turn()).pile(Hand::clamp(index)))
    }

    /// Whether `after` is this match one action later as far as turn and
    /// status go: the turn has gone to the other player and the status is
    /// what the board of `after` means.
    pub open spec fn advanced(&self, after: &Game) -> bool {
        &&& after.turn() == self.turn().opponent()
        &&& after.status() == Game::outcome(*after.board())
    }

    /// Whether `after` has the hands of this match.
    pub open spec fn same_hands(&self, after: &Game) -> bool {
        &&& forall|j: int|
            0 <= j < 3 ==> after.hand(Color::Black).pile(j) == self.hand(Color::Black).pile(j)
        &&& forall|j: int|
            0 <= j < 3 ==> after.hand(Color::White).pile(j) == self.hand(Color::White).pile(j)
    }

    /// Whether `after` has the hands of this match, but for the top piece
    /// of pile `k` in the hand of the player to move.
    pub open spec fn hand_taken(&self, k: int, after: &Game) -> bool {
        &&& forall|j: int|
            0 <= j < 3 ==> after.hand(self.turn()).pile(j) == if j == k {
                self.hand(self.turn()).pile(j).drop_last()
            } else {
                self.hand(self.turn()).pile(j)
            }
        &&& forall|j: int|
            0 <= j < 3 ==> after.hand(self.turn().opponent()).pile(j) == self.hand(
                self.turn().opponent(),
            ).pile(j)
    }

    /// Carries out `action` for the player to move and returns the status
    /// of the match.
    ///
    /// Once a player has won, nothing changes any more and the status is
    /// returned as it is. Else a refused action leaves the match as it is
    /// and returns the reason: a piece is taken from the hand only when it
    /// can be placed. An action that is carried out changes the board,
    /// settles the status by the new board, and gives the turn to the other
    /// player, also when it has ended the match.
    pub fn execute(&mut self, action: Action) -> (r: Result<Status, Error>)
        requires
            old(self).wf(),
        ensures
            final(self).wf(),
            old(self).status() != Status::OnGoing ==> r == Ok::<Status, Error>(old(self).status())
                && *final(self) == *old(self),
            old(self).status() == Status::OnGoing ==> match action {
                Action::Move { from, to } => match old(self).board().top_at(from) {
                    Some(piece) if old(self).board().may_move(piece, to) => {
                        &&& r == Ok::<Status, Error>(final(self).status())
                        &&& old(self).board().moved(piece, from, to, *final(self).board())
                        &&& old(self).same_hands(final(self))
                        &&& old(self).advanced(final(self))
                    },
                    _ => r == Err::<Status, Error>(Error::InvalidMoving { from, to })
                        && *final(self) == *old(self),
                },
                Action::PlaceFromHand { index, to } => match old(self).offered(index) {
                    None => r == Err::<Status, Error>(Error::EmptyHand) && *final(self) == *old(
                        self,
                    ),
                    Some(piece) => if old(self).board().may_place(piece, to) {
                        &&& r == Ok::<Status, Error>(final(self).status())
                        &&& old(self).board().placed(piece, to, *final(self).board())
                        &&& old(self).hand_taken(Hand::clamp(index), final(self))
                        &&& old(self).advanced(final(self))
                    } else {
                        r == Err::<Status, Error>(Error::InvalidPlacing(to)) && *final(self)
                            == *old(self)
                    },
                },
            },
    {
        match self.status {
            Status::OnGoing => {},
            Status::BlackWins => {
                return Ok(Status::BlackWins);
            },
            Status::WhiteWins => {
                return Ok(Status::WhiteWins);
            },
        };
        match action {
            Action::Move { from, to } => match self.board.move_piece(from, to) {
                Ok(board) => {
                    self.board = board;
                    proof {
                        lemma_supply_after_moving(*old(self), *self);
                    }
                },
                Err(err) => {
                    return Err(err);
                },
            },
            Action::PlaceFromHand { index, to } => {
                let mover = self.turn.index();
                let offered = match self.hands[mover].peek(index) {
                    Some(piece) => Some(*piece),
                    None => None,
                };
                if let Some(piece) = offered {
                    match self.board.place(piece, to) {
                        Ok(board) => {
                            self.hands[mover].pop(index);
                            self.board = board;
                            proof {
                                lemma_supply_after_placing(
                                    *old(self),
                                    *self,
                                    piece,
                                    Hand::clamp(index),
                                );
                            }
                        },
                        Err(err) => {
                            return Err(err);
                        },
                    };
                } else {
                    return Err(Error::EmptyHand);
                }
            },
        };
        let ghost changed = *self;
        if self.board.has_won(Color::Black) {
            self.status = Status::BlackWins;
        }
        if self.board.has_won(Color::White) {
            self.status = Status::WhiteWins;
        }
        self.change_turn();
        proof {
            lemma_supply_after_moving(changed, *self);
        }
        Ok(self.status)
    }

    /// Gives the turn to the other player.
    fn change_turn(&mut self)
        ensures
            final(self).turn() == old(self).turn().opponent(),
            final(self).board() == old(self).board(),
            final(self).hand(Color::Black) == old(self).hand(Color::Black),
            final(self).hand(Color::White) == old(self).hand(Color::White),
            final(self).status() == old(self).status(),
    {
        self.turn = self.turn.reverse();
    }
}

/// Once the player to move has taken the top piece of a pile and it
/// stands on the board, each hand is still one of its color and three
/// pieces of each kind are still in the match.
pub proof fn lemma_supply_after_placing(before: Game, after: Game, piece: Piece, k: int)
    requires
        0 <= k < 3,
        before.hand(Color::Black).wf(Color::Black),
        before.hand(Color::White).wf(Color::White),
        before.supplied(),
        Hand::top_of(before.hand(before.turn()).pile(k)) == Some(piece),
        before.hand_taken(k, &after),
        after.board().count(piece) == before.board().count(piece) + 1,
        forall|q: Piece| q != piece ==> #[trigger] after.board().count(q) == before.board().count(q),
    ensures
        piece.color == before.turn(),
        after.hand(Color::Black).wf(Color::Black),
        after.hand(Color::White).wf(Color::White),
        after.supplied(),
{
    let mover = before.turn();
    let other = mover.opponent();
    crate::hand::lemma_count_after_pop(*before.hand(mover), *after.hand(mover), mover, k, piece);
    crate::hand::lemma_pile_after_pop(*before.hand(mover), *after.hand(mover), mover, k);
    crate::hand::lemma_pile_after_pop(*before.hand(other), *after.hand(other), other, k);
    assert forall|p: Piece| #[trigger] after.supply(p) == 3 by {
        assert(before.supply(p) == 3);
        if p.color == mover {
            crate::hand::lemma_count_after_pop(
                *before.hand(mover),
                *after.hand(mover),
                mover,
                k,
                p,
            );
        } else {
            crate::hand::lemma_same_piles(*before.hand(other), *after.hand(other), p);
        }
    }
}

/// In a match that is in order no more than three pieces of a kind are on
/// the board, and those that are not are in the hand of their color.
pub proof fn lemma_at_most_three(g: Game, p: Piece)
    requires
        g.wf(),
    ensures
        g.board().count(p) <= 3,
        g.board().count(p) + g.hand(p.color).count(p) == 3,
        g.hand(p.color.opponent()).count(p) == 0,
{
    assert(g.supply(p) == 3);
    let other = p.color.opponent();
    crate::hand::lemma_pile_members(*g.hand(other), other, 0, p);
    crate::hand::lemma_pile_members(*g.hand(other), other, 1, p);
    crate::hand::lemma_pile_members(*g.hand(other), other, 2, p);
}

/// Once a piece has moved on the board, three pieces of each kind are still
/// in the match.
pub proof fn lemma_supply_after_moving(before: Game, after: Game)
    requires
        before.supplied(),
        after.hand(Color::Black) == before.hand(Color::Black),
        after.hand(Color::White) == before.hand(Color::White),
        forall|p: Piece| #[trigger] after.board().count(p) == before.board().count(p),
    ensures
        after.supplied(),
{
    assert forall|p: Piece| #[trigger] after.supply(p) == 3 by {
        assert(before.supply(p) == 3);
        assert(after.board().count(p) == before.board().count(p));
    }
}

} // verus!
