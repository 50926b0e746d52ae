//! A player's supply of pieces that are not on the board yet.

use vstd::prelude::*;
use vstd::std_specs::iter::IteratorSpec;
use crate::color::Color;
use crate::piece::Piece;
use crate::piece::PieceSet;
use crate::piece::Size;

verus! {

/// A player's hand: three piles of pieces. Only the top piece of a pile can
/// be taken, and no piece ever comes back.
#[derive(PartialEq, Eq, PartialOrd, Ord, Debug, Hash)]
pub struct Hand {
    sets: [PieceSet; 3],
}

impl Clone for Hand {
    /// Returns a hand of the same piles.
    fn clone(&self) -> (r: Hand)
        ensures
            forall|i: int| 0 <= i < 3 ==> r.pile(i) == self.pile(i),
    {
        Hand { sets: [self.sets[0].clone(), self.sets[1].clone(), self.sets[2].clone()] }
    }
}

impl IntoIterator for Hand {
    type Item = PieceSet;

    type IntoIter = std::vec::IntoIter<PieceSet>;

    /// Goes through the three piles, from the first to the last.
    fn into_iter(self) -> (r: std::vec::IntoIter<PieceSet>)
        ensures
            r.remaining().len() == 3,
            forall|i: int| 0 <= i < 3 ==> (#[trigger] r.remaining()[i])@ == self.pile(i),
    {
        self.piles().into_iter()
    }
}

impl IntoIterator for &Hand {
    type Item = PieceSet;

    type IntoIter = std::vec::IntoIter<PieceSet>;

    /// Goes through the three piles, from the first to the last.
    fn into_iter(self) -> (r: std::vec::IntoIter<PieceSet>)
        ensures
            r.remaining().len() == 3,
            forall|i: int| 0 <= i < 3 ==> (#[trigger] r.remaining()[i])@ == self.pile(i),
    {
        self.piles().into_iter()
    }
}

impl Hand {
    /// The number of piles in a hand.
    pub const PIECE_SET_NUM: usize = 3;

    /// The pile that a new hand of color `c` holds three times: one piece
    /// of each size, the largest on top.
    pub open spec fn initial_pile(c: Color) -> Seq<Piece> {
        seq![
            Piece { color: c, size: Size::Tiny },
            Piece { color: c, size: Size::Small },
            Piece { color: c, size: Size::Medium },
            Piece { color: c, size: Size::Big },
        ]
    }

    /// The pile that an index selects: an index beyond the last pile
    /// selects the last pile.
    pub open spec fn clamp(i: usize) -> int {
        if i > 2 {
            2
        } else {
            i as int
        }
    }

    /// The top piece of a pile, or `None` if the pile is empty.
    pub open spec fn top_of(pile: Seq<Piece>) -> Option<Piece> {
        if pile.len() == 0 {
            None
        } else {
            Some(pile.last())
        }
    }

    /// The pieces of pile `i`, the last on top.
    pub closed spec fn pile(self, i: int) -> Seq<Piece> {
        self.sets[i]@
    }

    /// Whether pile `i` is what is left of the initial pile of color `c`
    /// after some pieces were taken from its top.
    pub open spec fn pile_ok(self, c: Color, i: int) -> bool {
        self.pile(i).len() <= 4 && self.pile(i) == Hand::initial_pile(c).take(
            self.pile(i).len() as int,
        )
    }

    /// Whether this is a hand of color `c`: each pile is what is left of
    /// the initial pile of that color.
    pub open spec fn wf(self, c: Color) -> bool {
        self.pile_ok(c, 0) && self.pile_ok(c, 1) && self.pile_ok(c, 2)
    }

    /// How many pieces of the kind `p` pile `i` holds.
    pub open spec fn count_in(self, p: Piece, i: int) -> nat {
        if self.pile(i).contains(p) {
            1
        } else {
            0
        }
    }

    /// How many pieces of the kind `p` the hand holds.
    pub open spec fn count(self, p: Piece) -> nat {
        self.count_in(p, 0) + self.count_in(p, 1) + self.count_in(p, 2)
    }

    /// Returns the full hand of `color`: three piles, each with one piece
    /// of each size, the largest on top.
    pub fn new(color: Color) -> (r: Hand)
        ensures
            r.wf(color),
            forall|i: int| 0 <= i < 3 ==> r.pile(i) == Hand::initial_pile(color),
    {
        let pile = [
            Piece::new(color, Size::Tiny),
            Piece::new(color, Size::Small),
            Piece::new(color, Size::Medium),
            Piece::new(color, Size::Big),
        ];
        let r = Hand {
            sets: [
                PieceSet::from_slice(pile.as_slice()),
                PieceSet::from_slice(pile.as_slice()),
                PieceSet::from_slice(pile.as_slice()),
            ],
        };
        proof {
            assert(pile@ =~= Hand::initial_pile(color));
            assert(Hand::initial_pile(color).take(4) =~= Hand::initial_pile(color));
        }
        r
    }

    /// Returns the three piles, from the first to the last.
    pub fn piles(&self) -> (r: Vec<PieceSet>)
        ensures
            r@.len() == 3,
            forall|i: int| 0 <= i < 3 ==> (#[trigger] r@[i])@ == self.pile(i),
    {
        let mut piles: Vec<PieceSet> = Vec::new();
        let mut i: usize = 0;
        while i < 3
            invariant
                i <= 3,
                piles@.len() == i,
                forall|j: int| 0 <= j < i ==> (#[trigger] piles@[j])@ == self.pile(j),
            decreases 3 - i,
        {
            piles.push(self.sets[i].clone());
            i = i + 1;
        }
        piles
    }

    /// Returns the top piece of the pile that `i` selects and leaves it
    /// where it is, or `None` if that pile is empty.
    pub fn peek(&self, i: usize) -> (r: Option<&Piece>)
        ensures
            r.is_some() == Hand::top_of(self.pile(Hand::clamp(i))).is_some(),
            r matches Some(p) ==> Some(*p) == Hand::top_of(self.pile(Hand::clamp(i))),
    {
        let k: usize = if i > 2 { 2 } else { i };
        self.sets[k].peek()
    }

    /// Takes the top piece off the pile that `i` selects and returns it, or
    /// returns `None` and leaves the hand as it is if that pile is empty.
    pub fn pop(&mut self, i: usize) -> (r: Option<Piece>)
        ensures
            r == Hand::top_of(old(self).pile(Hand::clamp(i))),
            forall|c: Color| old(self).wf(c) ==> final(self).wf(c),
            forall|j: int|
                0 <= j < 3 ==> final(self).pile(j) == if j == Hand::clamp(i) && r.is_some() {
                    old(self).pile(j).drop_last()
                } else {
                    old(self).pile(j)
                },
    {
        let k: usize = if i > 2 { 2 } else { i };
        let r = self.sets[k].pop();
        proof {
            assert forall|c: Color| old(self).wf(c) implies self.wf(c) by {
                lemma_pile_after_pop(*old(self), *self, c, k as int);
            }
        }
        r
    }
}

/// A pile of a hand of color `c` holds a piece exactly if the piece is of
/// that color and its rank is below the height of the pile.
pub proof fn lemma_pile_members(h: Hand, c: Color, i: int, p: Piece)
    requires
        0 <= i < 3,
        h.pile_ok(c, i),
    ensures
        h.pile(i).contains(p) <==> p.color == c && p.size.rank() < h.pile(i).len(),
        h.count_in(p, i) == (if p.color == c && p.size.rank() < h.pile(i).len() {
            1nat
        } else {
            0nat
        }),
{
    let pile = h.pile(i);
    if p.color == c && p.size.rank() < pile.len() {
        assert(pile[p.size.rank() as int] == p);
    }
    if pile.contains(p) {
        let k = choose|k: int| 0 <= k < pile.len() && pile[k] == p;
        assert(pile[k] == Hand::initial_pile(c)[k]);
    }
}

/// Taking the top piece off a pile of a hand of color `c` leaves what a
/// pile of such a hand may be.
pub proof fn lemma_pile_after_pop(before: Hand, after: Hand, c: Color, k: int)
    requires
        0 <= k < 3,
        before.wf(c),
        forall|j: int|
            0 <= j < 3 ==> after.pile(j) == before.pile(j) || (j == k && before.pile(j).len() > 0
                && after.pile(j) == before.pile(j).drop_last()),
    ensures
        after.wf(c),
{
    assert forall|j: int| 0 <= j < 3 implies after.pile_ok(c, j) by {
        assert(before.pile_ok(c, j));
        if after.pile(j) != before.pile(j) {
            assert(after.pile(j) =~= Hand::initial_pile(c).take(after.pile(j).len() as int));
        }
    }
}

/// Taking the top piece off a pile of a hand of color `c` takes one from
/// the number of pieces of its kind in the hand, and none from any other.
pub proof fn lemma_count_after_pop(before: Hand, after: Hand, c: Color, k: int, p: Piece)
    requires
        0 <= k < 3,
        before.wf(c),
        before.pile(k).len() > 0,
        forall|j: int|
            0 <= j < 3 ==> after.pile(j) == if j == k {
                before.pile(j).drop_last()
            } else {
                before.pile(j)
            },
    ensures
        before.pile(k).last().color == c,
        after.count(p) == before.count(p) - if p == before.pile(k).last() {
            1int
        } else {
            0int
        },
{
    lemma_pile_after_pop(before, after, c, k);
    let top = before.pile(k).last();
    assert(before.pile_ok(c, k));
    assert(top == Hand::initial_pile(c)[before.pile(k).len() - 1]);
    assert forall|j: int| 0 <= j < 3 implies after.count_in(p, j) == before.count_in(p, j) - if j
        == k && p == top {
        1int
    } else {
        0int
    } by {
        assert(before.pile_ok(c, j));
        assert(after.pile_ok(c, j));
        lemma_pile_members(before, c, j, p);
        lemma_pile_members(after, c, j, p);
    }
}

/// A full hand of color `c` holds three pieces of each kind of that color,
/// and none of the other color.
pub proof fn lemma_count_full(h: Hand, c: Color, p: Piece)
    requires
        forall|i: int| 0 <= i < 3 ==> h.pile(i) == Hand::initial_pile(c),
    ensures
        h.wf(c),
        h.count(p) == (if p.color == c {
            3nat
        } else {
            0nat
        }),
{
    assert(Hand::initial_pile(c).take(4) =~= Hand::initial_pile(c));
    assert(h.pile_ok(c, 0) && h.pile_ok(c, 1) && h.pile_ok(c, 2));
    lemma_pile_members(h, c, 0, p);
    lemma_pile_members(h, c, 1, p);
    lemma_pile_members(h, c, 2, p);
}

/// Two hands with the same piles hold the same number of pieces of each
/// kind.
pub proof fn lemma_same_piles(a: Hand, b: Hand, p: Piece)
    requires
        forall|j: int| 0 <= j < 3 ==> a.pile(j) == b.pile(j),
    ensures
        a.count(p) == b.count(p),
{
}

} // verus!
