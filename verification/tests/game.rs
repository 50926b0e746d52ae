use gobblet::Action;
use gobblet::BitBoard;
use gobblet::Color;
use gobblet::Error;
use gobblet::Game;
use gobblet::Piece;
use gobblet::PieceSet;
use gobblet::Size;
use gobblet::Square;
use gobblet::Status;

fn place(index: usize, to: Square) -> Action {
    Action::PlaceFromHand { index, to }
}

/// How many pieces of the kind `piece` the hand of its color holds.
fn in_hand(game: &Game, piece: Piece) -> u32 {
    let mut n = 0;
    for mut pile in game.hand(piece.color) {
        while let Some(top) = pile.pop() {
            if top == piece {
                n += 1;
            }
        }
    }
    n
}

fn on_board(game: &Game, piece: Piece) -> u32 {
    u32::from(game.board().pieces(piece).popcount())
}

fn assert_three_of_each(game: &Game) {
    for color in Color::ALL {
        for size in Size::ALL {
            let piece = Piece::new(color, size);
            assert_eq!(on_board(game, piece) + in_hand(game, piece), 3);
            assert!(on_board(game, piece) <= 3);
        }
    }
}

#[test]
fn new_game_starts_with_black_and_full_hands() {
    let game = Game::new();
    assert_eq!(game.turn(), Color::Black);
    assert_eq!(game.status(), Status::OnGoing);
    assert_eq!(game.board().combined(), BitBoard::new(0));
    for color in Color::ALL {
        let full = PieceSet::from_slice(&[
            Piece::new(color, Size::Tiny),
            Piece::new(color, Size::Small),
            Piece::new(color, Size::Medium),
            Piece::new(color, Size::Big),
        ]);
        assert_eq!(game.hand(color).piles(), vec![full.clone(), full.clone(), full]);
        for index in 0..3 {
            assert_eq!(
                game.hand(color).peek(index),
                Some(&Piece::new(color, Size::Big))
            );
        }
    }
    assert_three_of_each(&game);
}

#[test]
fn two_placements_alternate_the_turn() {
    let mut game = Game::new();

    assert_eq!(game.turn(), Color::Black);
    assert_eq!(game.execute(place(0, Square::B2)).ok(), Some(Status::OnGoing));
    assert_eq!(game.turn(), Color::White);
    assert_eq!(game.execute(place(0, Square::C3)).ok(), Some(Status::OnGoing));
    assert_eq!(game.turn(), Color::Black);
    assert_eq!(game.status(), Status::OnGoing);

    assert_eq!(
        game.board().get_top(Square::B2),
        Some(Piece::new(Color::Black, Size::Big))
    );
    assert_eq!(
        game.board().get_top(Square::C3),
        Some(Piece::new(Color::White, Size::Big))
    );
    // The first pile of each hand has lost its Big piece; the others are full.
    for color in Color::ALL {
        assert_eq!(
            game.hand(color).peek(0),
            Some(&Piece::new(color, Size::Medium))
        );
        assert_eq!(game.hand(color).peek(1), Some(&Piece::new(color, Size::Big)));
        assert_eq!(game.hand(color).peek(2), Some(&Piece::new(color, Size::Big)));
    }
    assert_three_of_each(&game);
}

#[test]
fn completing_a_row_wins_and_the_game_stays_won() {
    let mut game = Game::new();
    let plies = [
        place(0, Square::A1),
        place(0, Square::A4),
        place(1, Square::B1),
        place(1, Square::B4),
        place(2, Square::C1),
        place(2, Square::C4),
    ];
    for action in plies {
        assert_eq!(game.execute(action).ok(), Some(Status::OnGoing));
        assert_eq!(game.status(), Status::OnGoing);
    }
    assert_eq!(game.turn(), Color::Black);
    assert_eq!(game.execute(place(0, Square::D1)).ok(), Some(Status::BlackWins));
    assert_eq!(game.status(), Status::BlackWins);
    // The turn goes on even with the move that wins.
    assert_eq!(game.turn(), Color::White);
    assert!(game.board().has_won(Color::Black));
    assert!(!game.board().has_won(Color::White));

    let board = game.board().combined();
    let hand = game.hand(Color::White).piles();
    for action in [
        place(0, Square::D4),
        Action::Move {
            from: Square::A4,
            to: Square::D4,
        },
        Action::Move {
            from: Square::D2,
            to: Square::D3,
        },
    ] {
        assert_eq!(game.execute(action).ok(), Some(Status::BlackWins));
        assert_eq!(game.status(), Status::BlackWins);
        assert_eq!(game.turn(), Color::White);
        assert_eq!(game.board().combined(), board);
        assert_eq!(game.hand(Color::White).piles(), hand);
    }
    assert_three_of_each(&game);
}

#[test]
fn white_can_win_too() {
    let mut game = Game::new();
    let plies = [
        place(0, Square::A1),
        place(0, Square::D1),
        place(1, Square::B1),
        place(1, Square::C2),
        place(2, Square::A2),
        place(2, Square::B3),
        place(0, Square::D4),
    ];
    for action in plies {
        assert_eq!(game.execute(action).ok(), Some(Status::OnGoing));
    }
    assert_eq!(game.turn(), Color::White);
    assert_eq!(game.execute(place(0, Square::A4)).ok(), Some(Status::WhiteWins));
    assert_eq!(game.status(), Status::WhiteWins);
    assert_eq!(game.turn(), Color::Black);
    assert_eq!(game.execute(place(0, Square::C1)).ok(), Some(Status::WhiteWins));
    assert_eq!(game.turn(), Color::Black);
    assert!(!game.board().exists_at(Square::C1));
}

#[test]
fn uncovering_a_row_of_the_other_color_wins_for_white_when_both_have_a_line() {
    // Black fills row 1, but its piece on D1 is covered by White at once;
    // White fills row 4. Then White moves the cover away to complete row 4
    // and uncovers Black's row with the same move: White is recorded.
    let mut game = Game::new();
    let plies = [
        place(0, Square::D2),  // Black Big
        place(0, Square::A4),  // White Big
        place(0, Square::A1),  // Black Medium
        place(1, Square::B4),  // White Big
        place(0, Square::B1),  // Black Small
        place(2, Square::C4),  // White Big
        place(1, Square::C3),  // Black Big
        place(0, Square::D3),  // White Medium
        place(0, Square::D1),  // Black Tiny: row 1 holds A1, B1, D1
        place(0, Square::D1),  // White Small covers D1: Black had three in row 1
        place(1, Square::C1),  // Black Medium: row 1 shows A1, B1, C1
    ];
    for action in plies {
        assert_eq!(game.execute(action).ok(), Some(Status::OnGoing));
    }
    assert_eq!(game.turn(), Color::White);
    assert_eq!(
        game.board().get_top(Square::D1),
        Some(Piece::new(Color::White, Size::Small))
    );
    let status = game.execute(Action::Move {
        from: Square::D1,
        to: Square::D4,
    });
    assert!(game.board().has_won(Color::Black));
    assert!(game.board().has_won(Color::White));
    assert_eq!(status.ok(), Some(Status::WhiteWins));
    assert_eq!(game.status(), Status::WhiteWins);
}

#[test]
fn refused_move_leaves_the_game_as_it_is() {
    let mut game = Game::new();
    let from_empty = Action::Move {
        from: Square::A1,
        to: Square::A2,
    };
    assert_eq!(
        game.execute(from_empty).err(),
        Some(Error::InvalidMoving {
            from: Square::A1,
            to: Square::A2
        })
    );
    assert_eq!(game.turn(), Color::Black);
    assert_eq!(game.status(), Status::OnGoing);
    assert_eq!(game.board().combined(), BitBoard::new(0));

    assert!(game.execute(place(0, Square::A1)).is_ok());
    assert!(game.execute(place(0, Square::A2)).is_ok());
    let onto_same_size = Action::Move {
        from: Square::A1,
        to: Square::A2,
    };
    assert_eq!(
        game.execute(onto_same_size).err(),
        Some(Error::InvalidMoving {
            from: Square::A1,
            to: Square::A2
        })
    );
    assert_eq!(game.turn(), Color::Black);
    assert_eq!(game.board().combined(), BitBoard::new(0x8800));
    assert_three_of_each(&game);
}

#[test]
fn refused_placement_keeps_the_piece_in_the_hand() {
    let mut game = Game::new();
    assert!(game.execute(place(0, Square::A1)).is_ok());
    // White's Big piece may not cover Black's Big piece.
    assert_eq!(
        game.execute(place(0, Square::A1)).err(),
        Some(Error::InvalidPlacing(Square::A1))
    );
    assert_eq!(game.turn(), Color::White);
    assert_eq!(game.status(), Status::OnGoing);
    assert_eq!(
        game.hand(Color::White).peek(0),
        Some(&Piece::new(Color::White, Size::Big))
    );
    assert_eq!(
        game.board().get_top(Square::A1),
        Some(Piece::new(Color::Black, Size::Big))
    );
    assert_three_of_each(&game);
}

#[test]
fn empty_pile_gives_empty_hand() {
    let mut game = Game::new();
    let plies = [
        place(0, Square::A1),
        place(0, Square::A4),
        place(0, Square::B1),
        place(0, Square::B4),
        place(0, Square::C2),
        place(0, Square::C3),
        place(0, Square::D3),
        place(0, Square::D2),
    ];
    for action in plies {
        assert_eq!(game.execute(action).ok(), Some(Status::OnGoing));
    }
    assert_eq!(game.hand(Color::Black).peek(0), None);
    assert_eq!(game.execute(place(0, Square::A2)).err(), Some(Error::EmptyHand));
    assert_eq!(game.turn(), Color::Black);
    assert_eq!(game.status(), Status::OnGoing);
    assert!(!game.board().exists_at(Square::A2));
    // The other piles are still there.
    assert_eq!(game.execute(place(1, Square::A2)).ok(), Some(Status::OnGoing));
    assert_eq!(
        game.board().get_top(Square::A2),
        Some(Piece::new(Color::Black, Size::Big))
    );
    assert_three_of_each(&game);
}

#[test]
fn index_beyond_the_piles_takes_from_the_last_pile() {
    let mut game = Game::new();
    assert_eq!(game.execute(place(7, Square::A1)).ok(), Some(Status::OnGoing));
    assert_eq!(
        game.hand(Color::Black).peek(0),
        Some(&Piece::new(Color::Black, Size::Big))
    );
    assert_eq!(
        game.hand(Color::Black).peek(1),
        Some(&Piece::new(Color::Black, Size::Big))
    );
    assert_eq!(
        game.hand(Color::Black).peek(2),
        Some(&Piece::new(Color::Black, Size::Medium))
    );
    assert_eq!(
        game.hand(Color::Black).peek(usize::MAX),
        Some(&Piece::new(Color::Black, Size::Medium))
    );
}

#[test]
fn move_takes_the_top_piece_whatever_its_color() {
    let mut game = Game::new();
    assert!(game.execute(place(0, Square::A1)).is_ok());
    // White moves Black's piece.
    let action = Action::Move {
        from: Square::A1,
        to: Square::D4,
    };
    assert_eq!(game.execute(action).ok(), Some(Status::OnGoing));
    assert_eq!(game.turn(), Color::Black);
    assert_eq!(
        game.board().get_top(Square::D4),
        Some(Piece::new(Color::Black, Size::Big))
    );
    assert!(!game.board().exists_at(Square::A1));
    assert_three_of_each(&game);
}

#[test]
fn clone_is_a_game_of_its_own() {
    let mut game = Game::new();
    assert!(game.execute(place(0, Square::A1)).is_ok());
    let snapshot = game.clone();
    assert!(game.execute(place(0, Square::B2)).is_ok());
    assert_eq!(snapshot.turn(), Color::White);
    assert_eq!(snapshot.board().combined(), BitBoard::new(0x8000));
    assert_eq!(
        snapshot.hand(Color::White).peek(0),
        Some(&Piece::new(Color::White, Size::Big))
    );
    assert_eq!(game.board().combined(), BitBoard::new(0x8400));
}
