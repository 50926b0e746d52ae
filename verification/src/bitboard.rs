//! Sets of squares, held as one bit per square.

use vstd::prelude::*;
use crate::square::Square;

pub mod ops;

verus! {

/// A set of squares in a 16-bit word: a bit is set exactly when its square
/// is a member.
#[derive(PartialEq, Eq, Structural, PartialOrd, Ord, Clone, Copy, Debug, Hash)]
pub struct BitBoard(pub u16);

impl View for BitBoard {
    type V = Set<Square>;

    /// The squares that are members.
    open spec fn view(&self) -> Set<Square> {
        Set::new(|sq: Square| self.contains(sq))
    }
}

impl BitBoard {
    /// The set without any square.
    pub open spec fn nothing() -> BitBoard {
        BitBoard(0)
    }

    /// One of the ten lines of four squares: 0 to 3 are the columns A to D,
    /// 4 to 7 the rows 1 to 4, 8 is the diagonal from A1 to D4 and 9 the
    /// diagonal from D1 to A4.
    pub open spec fn line(i: int) -> BitBoard {
        if i == 0 {
            BitBoard(0x8888)
        } else if i == 1 {
            BitBoard(0x4444)
        } else if i == 2 {
            BitBoard(0x2222)
        } else if i == 3 {
            BitBoard(0x1111)
        } else if i == 4 {
            BitBoard(0xF000)
        } else if i == 5 {
            BitBoard(0x0F00)
        } else if i == 6 {
            BitBoard(0x00F0)
        } else if i == 7 {
            BitBoard(0x000F)
        } else if i == 8 {
            BitBoard(0x8421)
        } else {
            BitBoard(0x1248)
        }
    }

    /// Whether `sq` lies on line `i`, by its column and row.
    pub open spec fn on_line(i: int, sq: Square) -> bool {
        if 0 <= i < 4 {
            sq.col() == i
        } else if 4 <= i < 8 {
            sq.row() == i - 4
        } else if i == 8 {
            sq.col() == sq.row()
        } else {
            i == 9 && sq.col() + sq.row() == 3
        }
    }

    /// Returns the set without any square.
    pub fn empty() -> (r: BitBoard)
        ensures
            r == BitBoard::nothing(),
    {
        BitBoard(0)
    }

    /// Returns the ten lines of four squares: columns, rows, diagonals.
    pub fn line_masks() -> (r: [BitBoard; 10])
        ensures
            forall|i: int| 0 <= i < 10 ==> r[i] == BitBoard::line(i),
    {
        [
            BitBoard(0x8888),
            BitBoard(0x4444),
            BitBoard(0x2222),
            BitBoard(0x1111),
            BitBoard(0xF000),
            BitBoard(0x0F00),
            BitBoard(0x00F0),
            BitBoard(0x000F),
            BitBoard(0x8421),
            BitBoard(0x1248),
        ]
    }

    /// Whether `sq` is a member.
    pub open spec fn contains(self, sq: Square) -> bool {
        self.0 & sq.mask() != 0
    }

    /// The set that holds `sq` and nothing else.
    pub open spec fn single(sq: Square) -> BitBoard {
        BitBoard(sq.mask())
    }

    /// The squares that are in both sets.
    pub open spec fn intersection(self, other: BitBoard) -> BitBoard {
        BitBoard(self.0 & other.0)
    }

    /// The squares that are in either set.
    pub open spec fn union(self, other: BitBoard) -> BitBoard {
        BitBoard(self.0 | other.0)
    }

    /// The squares that are in exactly one of the two sets.
    pub open spec fn symmetric_difference(self, other: BitBoard) -> BitBoard {
        BitBoard(self.0 ^ other.0)
    }

    /// The squares that are not in the set.
    pub open spec fn complement(self) -> BitBoard {
        BitBoard(!self.0)
    }

    /// The set with `sq` added.
    pub open spec fn with(self, sq: Square) -> BitBoard {
        self.union(BitBoard::single(sq))
    }

    /// The set with `sq` taken out.
    pub open spec fn without(self, sq: Square) -> BitBoard {
        self.intersection(BitBoard::single(sq).complement())
    }

    /// Whether every square of `line` is a member.
    pub open spec fn covers(self, line: BitBoard) -> bool {
        self.intersection(line) == line
    }

    /// The members among the first `n` squares of the row-by-row listing.
    spec fn members_before(self, n: int) -> Set<Square> {
        Set::new(|sq: Square| self.contains(sq) && sq.index() < n)
    }

    /// Returns the set whose bits are those of `n`.
    pub fn new(n: u16) -> (r: BitBoard)
        ensures
            r == BitBoard(n),
    {
        BitBoard(n)
    }

    /// Returns the number of squares in the set.
    pub fn popcount(&self) -> (r: u8)
        ensures
            r == self@.len(),
            r <= 16,
    {
        let all = Square::ALL;
        let mut n: u8 = 0;
        let mut i: usize = 0;
        proof {
            assert(self.members_before(0) =~= Set::<Square>::empty());
        }
        while i < 16
            invariant
                i <= 16,
                all == Square::ALL,
                n <= i,
                self.members_before(i as int).finite(),
                n == self.members_before(i as int).len(),
            decreases 16 - i,
        {
            let sq = all[i];
            proof {
                crate::square::lemma_at_index(i as int);
                assert(sq.index() == i);
                if self.contains(sq) {
                    assert(self.members_before(i + 1) =~= self.members_before(i as int).insert(sq));
                } else {
                    assert(self.members_before(i + 1) =~= self.members_before(i as int));
                }
            }
            if self.0 & sq.bit() != 0 {
                n = n + 1;
            }
            i = i + 1;
        }
        proof {
            assert(self.members_before(16) =~= self@);
        }
        n
    }

    /// Returns the set that holds `square` and nothing else.
    pub fn from_square(square: Square) -> (r: BitBoard)
        ensures
            r == BitBoard::single(square),
    {
        BitBoard(square.bit())
    }
}

/// Whether only one bit of `m` is set.
pub open spec fn is_single_bit(m: u16) -> bool {
    m == 0x8000 || m == 0x4000 || m == 0x2000 || m == 0x1000 || m == 0x0800 || m == 0x0400 || m
        == 0x0200 || m == 0x0100 || m == 0x0080 || m == 0x0040 || m == 0x0020 || m == 0x0010 || m
        == 0x0008 || m == 0x0004 || m == 0x0002 || m == 0x0001
}

/// How the bitwise operators act on one bit.
pub proof fn lemma_bitwise_on_one_bit(x: u16, y: u16, m: u16)
    by (bit_vector)
    requires
        is_single_bit(m),
    ensures
        ((x & y) & m != 0) <==> (x & m != 0 && y & m != 0),
        ((x | y) & m != 0) <==> (x & m != 0 || y & m != 0),
        ((x ^ y) & m != 0) <==> ((x & m != 0) != (y & m != 0)),
        ((!x) & m != 0) <==> (x & m == 0),
        0u16 & m == 0,
        m & m != 0,
{
}

/// Two different single bits have nothing in common.
pub proof fn lemma_single_bits_apart(m: u16, n: u16)
    by (bit_vector)
    requires
        is_single_bit(m),
        is_single_bit(n),
        m != n,
    ensures
        m & n == 0,
{
}

/// A word is known by its sixteen bits.
pub proof fn lemma_word_by_bits(x: u16, y: u16)
    by (bit_vector)
    requires
        (x & 0x8000 != 0) == (y & 0x8000 != 0),
        (x & 0x4000 != 0) == (y & 0x4000 != 0),
        (x & 0x2000 != 0) == (y & 0x2000 != 0),
        (x & 0x1000 != 0) == (y & 0x1000 != 0),
        (x & 0x0800 != 0) == (y & 0x0800 != 0),
        (x & 0x0400 != 0) == (y & 0x0400 != 0),
        (x & 0x0200 != 0) == (y & 0x0200 != 0),
        (x & 0x0100 != 0) == (y & 0x0100 != 0),
        (x & 0x0080 != 0) == (y & 0x0080 != 0),
        (x & 0x0040 != 0) == (y & 0x0040 != 0),
        (x & 0x0020 != 0) == (y & 0x0020 != 0),
        (x & 0x0010 != 0) == (y & 0x0010 != 0),
        (x & 0x0008 != 0) == (y & 0x0008 != 0),
        (x & 0x0004 != 0) == (y & 0x0004 != 0),
        (x & 0x0002 != 0) == (y & 0x0002 != 0),
        (x & 0x0001 != 0) == (y & 0x0001 != 0),
    ensures
        x == y,
{
}

/// Membership after each operation, square by square: the operators on
/// words are the operations on sets of squares.
pub proof fn lemma_membership()
    ensures
        forall|sq: Square| !(#[trigger] BitBoard::nothing().contains(sq)),
        forall|s: Square, sq: Square| #[trigger] BitBoard::single(s).contains(sq) <==> s == sq,
        forall|a: BitBoard, b: BitBoard, sq: Square| #[trigger]
            a.intersection(b).contains(sq) <==> a.contains(sq) && b.contains(sq),
        forall|a: BitBoard, b: BitBoard, sq: Square| #[trigger]
            a.union(b).contains(sq) <==> a.contains(sq) || b.contains(sq),
        forall|a: BitBoard, b: BitBoard, sq: Square| #[trigger]
            a.symmetric_difference(b).contains(sq) <==> a.contains(sq) != b.contains(sq),
        forall|a: BitBoard, sq: Square| #[trigger] a.complement().contains(sq) <==> !a.contains(sq),
{
    assert forall|sq: Square| !(#[trigger] BitBoard::nothing().contains(sq)) by {
        lemma_bitwise_on_one_bit(0, 0, sq.mask());
    }
    assert forall|s: Square, sq: Square| #[trigger]
        BitBoard::single(s).contains(sq) <==> s == sq by {
        lemma_bitwise_on_one_bit(0, 0, sq.mask());
        if s != sq {
            lemma_single_bits_apart(s.mask(), sq.mask());
        }
    }
    assert forall|a: BitBoard, b: BitBoard, sq: Square| #[trigger]
        a.intersection(b).contains(sq) <==> a.contains(sq) && b.contains(sq) by {
        lemma_bitwise_on_one_bit(a.0, b.0, sq.mask());
    }
    assert forall|a: BitBoard, b: BitBoard, sq: Square| #[trigger]
        a.union(b).contains(sq) <==> a.contains(sq) || b.contains(sq) by {
        lemma_bitwise_on_one_bit(a.0, b.0, sq.mask());
    }
    assert forall|a: BitBoard, b: BitBoard, sq: Square| #[trigger]
        a.symmetric_difference(b).contains(sq) <==> a.contains(sq) != b.contains(sq) by {
        lemma_bitwise_on_one_bit(a.0, b.0, sq.mask());
    }
    assert forall|a: BitBoard, sq: Square| #[trigger]
        a.complement().contains(sq) <==> !a.contains(sq) by {
        lemma_bitwise_on_one_bit(a.0, a.0, sq.mask());
    }
}

/// Two sets with the same members are the same value.
pub proof fn lemma_same_members(a: BitBoard, b: BitBoard)
    requires
        forall|sq: Square| a.contains(sq) == b.contains(sq),
    ensures
        a == b,
{
    assert(a.contains(Square::A1) == b.contains(Square::A1));
    assert(a.contains(Square::B1) == b.contains(Square::B1));
    assert(a.contains(Square::C1) == b.contains(Square::C1));
    assert(a.contains(Square::D1) == b.contains(Square::D1));
    assert(a.contains(Square::A2) == b.contains(Square::A2));
    assert(a.contains(Square::B2) == b.contains(Square::B2));
    assert(a.contains(Square::C2) == b.contains(Square::C2));
    assert(a.contains(Square::D2) == b.contains(Square::D2));
    assert(a.contains(Square::A3) == b.contains(Square::A3));
    assert(a.contains(Square::B3) == b.contains(Square::B3));
    assert(a.contains(Square::C3) == b.contains(Square::C3));
    assert(a.contains(Square::D3) == b.contains(Square::D3));
    assert(a.contains(Square::A4) == b.contains(Square::A4));
    assert(a.contains(Square::B4) == b.contains(Square::B4));
    assert(a.contains(Square::C4) == b.contains(Square::C4));
    assert(a.contains(Square::D4) == b.contains(Square::D4));
    lemma_word_by_bits(a.0, b.0);
}

/// The operators on words, read as operations on sets of squares.
pub proof fn lemma_views(a: BitBoard, b: BitBoard, sq: Square)
    ensures
        BitBoard::nothing()@ == Set::<Square>::empty(),
        BitBoard::single(sq)@ == set![sq],
        a.intersection(b)@ == a@.intersect(b@),
        a.union(b)@ == a@.union(b@),
        a.symmetric_difference(b)@ == a@.union(b@).difference(a@.intersect(b@)),
        a.complement()@ == Set::<Square>::full().difference(a@),
        a.with(sq)@ == a@.insert(sq),
        a.without(sq)@ == a@.remove(sq),
        a.covers(b) <==> b@.subset_of(a@),
        a@.finite(),
        a@.len() <= 16,
{
    lemma_membership();
    assert(BitBoard::nothing()@ =~= Set::<Square>::empty());
    assert(BitBoard::single(sq)@ =~= set![sq]);
    assert(a.intersection(b)@ =~= a@.intersect(b@));
    assert(a.union(b)@ =~= a@.union(b@));
    assert(a.symmetric_difference(b)@ =~= a@.union(b@).difference(a@.intersect(b@)));
    assert(a.complement()@ =~= Set::<Square>::full().difference(a@));
    assert(a.with(sq)@ =~= a@.insert(sq));
    assert(a.without(sq)@ =~= a@.remove(sq));
    if b@.subset_of(a@) {
        assert forall|s: Square| a.intersection(b).contains(s) == b.contains(s) by {
            assert(b@.contains(s) ==> a@.contains(s));
        }
        lemma_same_members(a.intersection(b), b);
    }
    if a.covers(b) {
        assert forall|s: Square| b@.contains(s) implies a@.contains(s) by {
            assert(a.intersection(b).contains(s));
        }
    }
    lemma_count(a, 16);
    assert(a.members_before(16) =~= a@);
}

/// Which single bits each of the ten line words holds.
pub proof fn lemma_line_bits(m: u16)
    by (bit_vector)
    requires
        is_single_bit(m),
    ensures
        0x8888u16 & m != 0 <==> (m == 0x8000 || m == 0x0800 || m == 0x0080 || m == 0x0008),
        0x4444u16 & m != 0 <==> (m == 0x4000 || m == 0x0400 || m == 0x0040 || m == 0x0004),
        0x2222u16 & m != 0 <==> (m == 0x2000 || m == 0x0200 || m == 0x0020 || m == 0x0002),
        0x1111u16 & m != 0 <==> (m == 0x1000 || m == 0x0100 || m == 0x0010 || m == 0x0001),
        0xF000u16 & m != 0 <==> (m == 0x8000 || m == 0x4000 || m == 0x2000 || m == 0x1000),
        0x0F00u16 & m != 0 <==> (m == 0x0800 || m == 0x0400 || m == 0x0200 || m == 0x0100),
        0x00F0u16 & m != 0 <==> (m == 0x0080 || m == 0x0040 || m == 0x0020 || m == 0x0010),
        0x000Fu16 & m != 0 <==> (m == 0x0008 || m == 0x0004 || m == 0x0002 || m == 0x0001),
        0x8421u16 & m != 0 <==> (m == 0x8000 || m == 0x0400 || m == 0x0020 || m == 0x0001),
        0x1248u16 & m != 0 <==> (m == 0x1000 || m == 0x0200 || m == 0x0040 || m == 0x0008),
{
}

/// Each line word holds the squares of its column, row or diagonal, and no
/// others.
pub proof fn lemma_lines(i: int, sq: Square)
    requires
        0 <= i < 10,
    ensures
        BitBoard::line(i).contains(sq) <==> BitBoard::on_line(i, sq),
{
    lemma_line_bits(sq.mask());
}

/// The members among the first `n` squares are finitely many, at most `n`.
proof fn lemma_count(a: BitBoard, n: int)
    requires
        0 <= n <= 16,
    ensures
        a.members_before(n).finite(),
        a.members_before(n).len() <= n,
    decreases n,
{
    if n == 0 {
        assert(a.members_before(0) =~= Set::<Square>::empty());
    } else {
        lemma_count(a, n - 1);
        let sq = Square::at(n - 1);
        crate::square::lemma_at_index(n - 1);
        if a.contains(sq) {
            assert(a.members_before(n) =~= a.members_before(n - 1).insert(sq));
        } else {
            assert(a.members_before(n) =~= a.members_before(n - 1));
        }
    }
}

} // verus!
