//! The sixteen squares of the board.
//!
//! ```text
//! +----+----+----+----+-> x
//! | A1 | B1 | C1 | D1 |
//! +----+----+----+----+
//! | A2 | B2 | C2 | D2 |
//! +----+----+----+----+
//! | A3 | B3 | C3 | D3 |
//! +----+----+----+----+
//! | A4 | B4 | C4 | D4 |
//! +----+----+----+----+
//! v y
//! ```
//!
//! Squares are listed row by row: A1, B1, C1, D1, A2, and so on. Each square
//! owns one bit of a 16-bit word; A1 owns the highest bit and D4 the lowest.

use vstd::prelude::*;

verus! {

/// One square of the board.
#[derive(PartialEq, Eq, Structural, PartialOrd, Ord, Clone, Copy, Debug, Hash)]
pub enum Square {
    A1,
    B1,
    C1,
    D1,
    A2,
    B2,
    C2,
    D2,
    A3,
    B3,
    C3,
    D3,
    A4,
    B4,
    C4,
    D4,
}

impl Square {
    /// Every square, row by row.
    pub const ALL: [Square; 16] = [
        Square::A1,
        Square::B1,
        Square::C1,
        Square::D1,
        Square::A2,
        Square::B2,
        Square::C2,
        Square::D2,
        Square::A3,
        Square::B3,
        Square::C3,
        Square::D3,
        Square::A4,
        Square::B4,
        Square::C4,
        Square::D4,
    ];

    /// The square's place in the row-by-row listing, from 0 to 15.
    pub open spec fn index(self) -> int {
        match self {
            Square::A1 => 0,
            Square::B1 => 1,
            Square::C1 => 2,
            Square::D1 => 3,
            Square::A2 => 4,
            Square::B2 => 5,
            Square::C2 => 6,
            Square::D2 => 7,
            Square::A3 => 8,
            Square::B3 => 9,
            Square::C3 => 10,
            Square::D3 => 11,
            Square::A4 => 12,
            Square::B4 => 13,
            Square::C4 => 14,
            Square::D4 => 15,
        }
    }

    /// The column of the square: 0 for A, 3 for D.
    pub open spec fn col(self) -> int {
        self.index() % 4
    }

    /// The row of the square: 0 for row 1, 3 for row 4.
    pub open spec fn row(self) -> int {
        self.index() / 4
    }

    /// The square at a place of the row-by-row listing.
    pub open spec fn at(i: int) -> Square {
        Square::ALL[i]
    }

    /// The word in which only this square's bit is set.
    pub open spec fn mask(self) -> u16 {
        match self {
            Square::A1 => 0x8000,
            Square::B1 => 0x4000,
            Square::C1 => 0x2000,
            Square::D1 => 0x1000,
            Square::A2 => 0x0800,
            Square::B2 => 0x0400,
            Square::C2 => 0x0200,
            Square::D2 => 0x0100,
            Square::A3 => 0x0080,
            Square::B3 => 0x0040,
            Square::C3 => 0x0020,
            Square::D3 => 0x0010,
            Square::A4 => 0x0008,
            Square::B4 => 0x0004,
            Square::C4 => 0x0002,
            Square::D4 => 0x0001,
        }
    }

    /// Returns the word in which only this square's bit is set.
    pub fn bit(self) -> (r: u16)
        ensures
            r == self.mask(),
    {
        match self {
            Square::A1 => 0x8000,
            Square::B1 => 0x4000,
            Square::C1 => 0x2000,
            Square::D1 => 0x1000,
            Square::A2 => 0x0800,
            Square::B2 => 0x0400,
            Square::C2 => 0x0200,
            Square::D2 => 0x0100,
            Square::A3 => 0x0080,
            Square::B3 => 0x0040,
            Square::C3 => 0x0020,
            Square::D3 => 0x0010,
            Square::A4 => 0x0008,
            Square::B4 => 0x0004,
            Square::C4 => 0x0002,
            Square::D4 => 0x0001,
        }
    }

    /// Returns the square in column `x` and row `y`, both counted from 0.
    /// A coordinate beyond the board is taken as the last column or row.
    pub fn from_pos(x: usize, y: usize) -> (r: Square)
        ensures
            r.col() == (if x < 3 { x as int } else { 3 }),
            r.row() == (if y < 3 { y as int } else { 3 }),
            r == Square::at((if x < 3 { x as int } else { 3 }) + 4 * (if y < 3 { y as int } else { 3 })),
    {
        let cx: usize = if x < 3 { x } else { 3 };
        let cy: usize = if y < 3 { y } else { 3 };
        let all = Square::ALL;
        let sq = all[cx + 4 * cy];
        proof {
            lemma_at_index(cx + 4 * cy);
        }
        sq
    }

    /// The square's name as text: the column letter, then the row digit.
    pub open spec fn name_spec(self) -> Seq<char> {
        seq![self.col_letter(), self.row_digit()]
    }

    /// The letter of the square's column.
    pub open spec fn col_letter(self) -> char {
        if self.col() == 0 {
            'A'
        } else if self.col() == 1 {
            'B'
        } else if self.col() == 2 {
            'C'
        } else {
            'D'
        }
    }

    /// The digit of the square's row.
    pub open spec fn row_digit(self) -> char {
        if self.row() == 0 {
            '1'
        } else if self.row() == 1 {
            '2'
        } else if self.row() == 2 {
            '3'
        } else {
            '4'
        }
    }

    /// Returns the square's name: the column letter, then the row digit.
    pub fn to_string(&self) -> (r: String)
        ensures
            r@ == self.name_spec(),
    {
        let r = match self {
            Square::A1 => {
                proof {
                    reveal_strlit("A1");
                }
                "A1".to_owned()
            },
            Square::B1 => {
                proof {
                    reveal_strlit("B1");
                }
                "B1".to_owned()
            },
            Square::C1 => {
                proof {
                    reveal_strlit("C1");
                }
                "C1".to_owned()
            },
            Square::D1 => {
                proof {
                    reveal_strlit("D1");
                }
                "D1".to_owned()
            },
            Square::A2 => {
                proof {
                    reveal_strlit("A2");
                }
                "A2".to_owned()
            },
            Square::B2 => {
                proof {
                    reveal_strlit("B2");
                }
                "B2".to_owned()
            },
            Square::C2 => {
                proof {
                    reveal_strlit("C2");
                }
                "C2".to_owned()
            },
            Square::D2 => {
                proof {
                    reveal_strlit("D2");
                }
                "D2".to_owned()
            },
            Square::A3 => {
                proof {
                    reveal_strlit("A3");
                }
                "A3".to_owned()
            },
            Square::B3 => {
                proof {
                    reveal_strlit("B3");
                }
                "B3".to_owned()
            },
            Square::C3 => {
                proof {
                    reveal_strlit("C3");
                }
                "C3".to_owned()
            },
            Square::D3 => {
                proof {
                    reveal_strlit("D3");
                }
                "D3".to_owned()
            },
            Square::A4 => {
                proof {
                    reveal_strlit("A4");
                }
                "A4".to_owned()
            },
            Square::B4 => {
                proof {
                    reveal_strlit("B4");
                }
                "B4".to_owned()
            },
            Square::C4 => {
                proof {
                    reveal_strlit("C4");
                }
                "C4".to_owned()
            },
            Square::D4 => {
                proof {
                    reveal_strlit("D4");
                }
                "D4".to_owned()
            },
        };
        assert(r@ =~= self.name_spec());
        r
    }
}

/// The listing and the index are inverse to each other: the square at place
/// `i` has index `i`.
pub proof fn lemma_at_index(i: int)
    requires
        0 <= i < 16,
    ensures
        Square::at(i).index() == i,
{
}

/// The listing and the index are inverse to each other: every square stands
/// in the listing at its index, which lies between 0 and 15.
pub proof fn lemma_index_at(sq: Square)
    ensures
        0 <= sq.index() < 16,
        Square::at(sq.index()) == sq,
{
}

/// A square is known by its column and its row.
pub proof fn lemma_col_row_determine(a: Square, b: Square)
    requires
        a.col() == b.col(),
        a.row() == b.row(),
    ensures
        a == b,
{
    lemma_index_at(a);
    lemma_index_at(b);
}

} // verus!
