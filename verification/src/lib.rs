//! A rules engine for Gobblet, a stacking game for two players on a 4x4 board.
//!
//! Pieces come in four sizes. A larger piece may be put on top of a smaller
//! one, and only the topmost piece of a square counts for a line of four.
//!
//! A [`Game`] holds the [`Board`], both players' [`Hand`]s, whose turn it is
//! and the [`Status`] of the match. It is driven by [`Action`]s:
//!
//! ```
//! use gobblet::{Action, Color, Game, Piece, Size, Square};
//!
//! let mut game = Game::new();
//!
//! assert_eq!(game.turn(), Color::Black);
//! game.execute(Action::PlaceFromHand { index: 0, to: Square::B2 }).unwrap();
//! assert_eq!(game.turn(), Color::White);
//! game.execute(Action::PlaceFromHand { index: 0, to: Square::C3 }).unwrap();
//!
//! assert_eq!(game.board().get_top(Square::B2), Some(Piece::new(Color::Black, Size::Big)));
//! assert_eq!(game.board().get_top(Square::C3), Some(Piece::new(Color::White, Size::Big)));
//! ```
//!
//! Every function comes with a contract that says what it returns, stated
//! over sets of squares and sequences of pieces, and the contracts are
//! proved. The proof functions named `lemma_..` state what follows for the
//! game as a whole: that a square shows the color of its largest piece,
//! that placing adds one piece and moving none, that three pieces of each
//! kind are in a match at all times.

pub mod color;
pub mod piece;
pub mod square;
pub mod bitboard;
pub mod error;
pub mod board;
pub mod hand;
pub mod game;

pub use crate::bitboard::BitBoard;
pub use crate::board::Board;
pub use crate::color::Color;
pub use crate::error::Error;
pub use crate::game::Action;
pub use crate::game::Game;
pub use crate::game::Status;
pub use crate::hand::Hand;
pub use crate::piece::Piece;
pub use crate::piece::PieceSet;
pub use crate::piece::Size;
pub use crate::square::Square;
