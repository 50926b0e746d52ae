use gobblet::BitBoard;
use gobblet::Board;
use gobblet::Color;
use gobblet::Error;
use gobblet::Piece;
use gobblet::PieceSet;
use gobblet::Size;
use gobblet::Square;

/// Where each kind of piece stands: the black sizes from Tiny to Big, then
/// the white ones.
fn bitboards(board: &Board) -> [BitBoard; 8] {
    [
        board.pieces(Piece::new(Color::Black, Size::Tiny)),
        board.pieces(Piece::new(Color::Black, Size::Small)),
        board.pieces(Piece::new(Color::Black, Size::Medium)),
        board.pieces(Piece::new(Color::Black, Size::Big)),
        board.pieces(Piece::new(Color::White, Size::Tiny)),
        board.pieces(Piece::new(Color::White, Size::Small)),
        board.pieces(Piece::new(Color::White, Size::Medium)),
        board.pieces(Piece::new(Color::White, Size::Big)),
    ]
}

fn color_combined(board: &Board) -> [BitBoard; 2] {
    [
        board.color_combined(Color::Black),
        board.color_combined(Color::White),
    ]
}

#[test]
fn test_place() {
    let mut board = Board::new();
    let mut error;

    // Place on empty square.
    board = board
        .place(Piece::new(Color::Black, Size::Big), Square::C2)
        .unwrap();
    board = board
        .place(Piece::new(Color::White, Size::Small), Square::B3)
        .unwrap();
    assert_eq!(
        bitboards(&board),
        [
            BitBoard::new(0x0000),
            BitBoard::new(0x0000),
            BitBoard::new(0x0000),
            BitBoard::new(0x0200),
            BitBoard::new(0x0000),
            BitBoard::new(0x0040),
            BitBoard::new(0x0000),
            BitBoard::new(0x0000)
        ]
    );
    assert_eq!(
        color_combined(&board),
        [BitBoard::new(0x0200), BitBoard::new(0x0040)]
    );
    assert_eq!(board.combined(), BitBoard::new(0x0240));

    // Place on same colored piece.
    board = board
        .place(Piece::new(Color::White, Size::Medium), Square::B3)
        .unwrap();
    assert_eq!(
        bitboards(&board),
        [
            BitBoard::new(0x0000),
            BitBoard::new(0x0000),
            BitBoard::new(0x0000),
            BitBoard::new(0x0200),
            BitBoard::new(0x0000),
            BitBoard::new(0x0040),
            BitBoard::new(0x0040),
            BitBoard::new(0x0000)
        ]
    );
    assert_eq!(
        color_combined(&board),
        [BitBoard::new(0x0200), BitBoard::new(0x0040)]
    );
    assert_eq!(board.combined(), BitBoard::new(0x0240));

    // Place on different colored piece.
    error = board.place(Piece::new(Color::Black, Size::Big), Square::B3);
    assert!(error.is_err());

    // Make a line.
    board = board
        .place(Piece::new(Color::Black, Size::Tiny), Square::A3)
        .unwrap();
    board = board
        .place(Piece::new(Color::Black, Size::Tiny), Square::C3)
        .unwrap();
    board = board
        .place(Piece::new(Color::Black, Size::Tiny), Square::D3)
        .unwrap();

    // Place on different colored piece.
    board = board
        .place(Piece::new(Color::White, Size::Small), Square::A3)
        .unwrap();
    assert_eq!(
        bitboards(&board),
        [
            BitBoard::new(0x00B0),
            BitBoard::new(0x0000),
            BitBoard::new(0x0000),
            BitBoard::new(0x0200),
            BitBoard::new(0x0000),
            BitBoard::new(0x00C0),
            BitBoard::new(0x0040),
            BitBoard::new(0x0000)
        ]
    );
    assert_eq!(
        color_combined(&board),
        [BitBoard::new(0x0230), BitBoard::new(0x00C0)]
    );
    assert_eq!(board.combined(), BitBoard::new(0x02F0));

    // Place on bigger size piece.
    error = board.place(Piece::new(Color::White, Size::Medium), Square::B3);
    assert!(error.is_err());
    error = board.place(Piece::new(Color::Black, Size::Medium), Square::C2);
    assert!(error.is_err());
}

#[test]
fn test_move() {
    let mut board = Board::new();
    let mut error;

    // Move from empty square.
    error = board.move_piece(Square::A1, Square::A2);
    assert!(error.is_err());

    // Move to empty square.
    board = board
        .place(Piece::new(Color::Black, Size::Big), Square::A1)
        .unwrap();
    board = board.move_piece(Square::A1, Square::A2).unwrap();
    assert_eq!(
        bitboards(&board),
        [
            BitBoard::new(0x0000),
            BitBoard::new(0x0000),
            BitBoard::new(0x0000),
            BitBoard::new(0x0800),
            BitBoard::new(0x0000),
            BitBoard::new(0x0000),
            BitBoard::new(0x0000),
            BitBoard::new(0x0000)
        ]
    );
    assert_eq!(
        color_combined(&board),
        [BitBoard::new(0x0800), BitBoard::new(0x0000)]
    );
    assert_eq!(board.combined(), BitBoard::new(0x0800));

    // Move to square with a smaller piece.
    board = board
        .place(Piece::new(Color::White, Size::Tiny), Square::A3)
        .unwrap();
    board = board
        .place(Piece::new(Color::White, Size::Medium), Square::A3)
        .unwrap();
    board = board.move_piece(Square::A2, Square::A3).unwrap();
    assert_eq!(
        bitboards(&board),
        [
            BitBoard::new(0x0000),
            BitBoard::new(0x0000),
            BitBoard::new(0x0000),
            BitBoard::new(0x0080),
            BitBoard::new(0x0080),
            BitBoard::new(0x0000),
            BitBoard::new(0x0080),
            BitBoard::new(0x0000)
        ]
    );
    assert_eq!(
        color_combined(&board),
        [BitBoard::new(0x0080), BitBoard::new(0x0000)]
    );
    assert_eq!(board.combined(), BitBoard::new(0x0080));

    // Move to square with a bigger piece.
    board = board
        .place(Piece::new(Color::White, Size::Medium), Square::C4)
        .unwrap();
    error = board.move_piece(Square::C4, Square::A3);
    assert!(error.is_err());

    // Move the top of stacked piece.
    board = board.move_piece(Square::A3, Square::D1).unwrap();
    assert_eq!(
        bitboards(&board),
        [
            BitBoard::new(0x0000),
            BitBoard::new(0x0000),
            BitBoard::new(0x0000),
            BitBoard::new(0x1000),
            BitBoard::new(0x0080),
            BitBoard::new(0x0000),
            BitBoard::new(0x0082),
            BitBoard::new(0x0000)
        ]
    );
    assert_eq!(
        color_combined(&board),
        [BitBoard::new(0x1000), BitBoard::new(0x0082)]
    );
    assert_eq!(board.combined(), BitBoard::new(0x1082));
}

#[test]
fn test_iter() {
    let mut board = Board::new();
    board = board
        .place(Piece::new(Color::White, Size::Tiny), Square::A3)
        .unwrap();
    board = board
        .place(Piece::new(Color::Black, Size::Medium), Square::A2)
        .unwrap();
    board = board.move_piece(Square::A2, Square::A3).unwrap();
    board = board
        .place(Piece::new(Color::White, Size::Big), Square::A2)
        .unwrap();
    board = board.move_piece(Square::A2, Square::A3).unwrap();
    board = board
        .place(Piece::new(Color::Black, Size::Big), Square::C1)
        .unwrap();
    board = board
        .place(Piece::new(Color::White, Size::Small), Square::B4)
        .unwrap();

    for (i, set) in board.into_iter().enumerate() {
        match i {
            2 => {
                assert_eq!(
                    set,
                    PieceSet::from_slice(&[Piece::new(Color::Black, Size::Big)])
                )
            }
            8 => {
                assert_eq!(
                    set,
                    PieceSet::from_slice(&[
                        Piece::new(Color::White, Size::Tiny),
                        Piece::new(Color::Black, Size::Medium),
                        Piece::new(Color::White, Size::Big)
                    ])
                )
            }
            13 => {
                assert_eq!(
                    set,
                    PieceSet::from_slice(&[Piece::new(Color::White, Size::Small)])
                )
            }
            _ => {
                assert_eq!(set, PieceSet::none());
            }
        }
    }
}

#[test]
fn new_board_is_empty() {
    let board = Board::new();
    assert_eq!(bitboards(&board), [BitBoard::new(0); 8]);
    assert_eq!(color_combined(&board), [BitBoard::new(0); 2]);
    assert_eq!(board.combined(), BitBoard::new(0));
    for square in Square::ALL {
        assert!(!board.exists_at(square));
        assert_eq!(board.get_top(square), None);
        assert_eq!(board.pieces_at(square), PieceSet::none());
    }
    assert!(!board.has_won(Color::Black));
    assert!(!board.has_won(Color::White));
}

#[test]
fn place_two_pieces_on_empty_squares() {
    let black_big = Piece::new(Color::Black, Size::Big);
    let white_small = Piece::new(Color::White, Size::Small);
    let board = Board::new()
        .place(black_big, Square::C2)
        .unwrap()
        .place(white_small, Square::B3)
        .unwrap();
    assert_eq!(board.combined(), BitBoard::new(0x0240));
    assert_eq!(board.combined().popcount(), 2);
    assert_eq!(board.get_top(Square::C2), Some(black_big));
    assert_eq!(board.get_top(Square::B3), Some(white_small));
    for square in Square::ALL {
        let occupied = square == Square::C2 || square == Square::B3;
        assert_eq!(board.exists_at(square), occupied);
    }
}

#[test]
fn place_on_own_piece_needs_a_strictly_larger_one() {
    let board = Board::new()
        .place(Piece::new(Color::Black, Size::Small), Square::B3)
        .unwrap();
    assert_eq!(
        board.place(Piece::new(Color::Black, Size::Tiny), Square::B3).err(),
        Some(Error::InvalidPlacing(Square::B3))
    );
    assert_eq!(
        board.place(Piece::new(Color::Black, Size::Small), Square::B3).err(),
        Some(Error::InvalidPlacing(Square::B3))
    );
    let medium = board
        .place(Piece::new(Color::Black, Size::Medium), Square::B3)
        .unwrap();
    assert_eq!(
        medium.get_top(Square::B3),
        Some(Piece::new(Color::Black, Size::Medium))
    );
    let big = board
        .place(Piece::new(Color::Black, Size::Big), Square::B3)
        .unwrap();
    assert_eq!(
        big.get_top(Square::B3),
        Some(Piece::new(Color::Black, Size::Big))
    );
    // The receiver is never changed.
    assert_eq!(
        board.get_top(Square::B3),
        Some(Piece::new(Color::Black, Size::Small))
    );
}

#[test]
fn place_on_other_color_without_three_in_a_row_is_refused() {
    let board = Board::new()
        .place(Piece::new(Color::Black, Size::Small), Square::B3)
        .unwrap();
    for size in Size::ALL {
        assert!(!board.can_place(Piece::new(Color::White, size), Square::B3));
        assert_eq!(
            board.place(Piece::new(Color::White, size), Square::B3).err(),
            Some(Error::InvalidPlacing(Square::B3))
        );
    }
}

#[test]
fn three_in_a_row_lets_the_other_color_cover_a_piece_of_the_row() {
    let mut board = Board::new();
    board = board
        .place(Piece::new(Color::White, Size::Small), Square::B3)
        .unwrap();
    for square in [Square::A3, Square::C3, Square::D3] {
        board = board
            .place(Piece::new(Color::Black, Size::Tiny), square)
            .unwrap();
    }
    // Black shows three squares of row 3. White may cover each of them with
    // a strictly larger piece, and only with such a piece.
    for square in [Square::A3, Square::C3, Square::D3] {
        assert!(!board.can_place(Piece::new(Color::White, Size::Tiny), square));
        assert!(board.can_place(Piece::new(Color::White, Size::Small), square));
        assert!(board.can_place(Piece::new(Color::White, Size::Big), square));
    }
    // White shows one square of the row only: Black may not cover it.
    for size in Size::ALL {
        assert!(!board.can_place(Piece::new(Color::Black, size), Square::B3));
    }
    // A move is held to the sizes alone.
    assert!(board.can_move(Piece::new(Color::Black, Size::Medium), Square::B3));
    assert!(!board.can_move(Piece::new(Color::Black, Size::Small), Square::B3));

    let covered = board
        .place(Piece::new(Color::White, Size::Small), Square::A3)
        .unwrap();
    assert_eq!(
        covered.get_top(Square::A3),
        Some(Piece::new(Color::White, Size::Small))
    );
    assert_eq!(covered.color_combined(Color::Black), BitBoard::new(0x0030));
    assert_eq!(covered.color_combined(Color::White), BitBoard::new(0x00C0));
    // Black's row is down to two squares: no more covering.
    assert!(!covered.can_place(Piece::new(Color::White, Size::Big), Square::C3));
}

#[test]
fn three_in_a_row_counts_on_columns_and_diagonals() {
    let tiny = Piece::new(Color::Black, Size::Tiny);
    let small = Piece::new(Color::White, Size::Small);
    let mut column = Board::new();
    for square in [Square::B1, Square::B2, Square::B4] {
        column = column.place(tiny, square).unwrap();
    }
    assert!(column.can_place(small, Square::B1));
    assert!(column.can_place(small, Square::B4));

    let mut diagonal = Board::new();
    for square in [Square::D1, Square::C2, Square::A4] {
        diagonal = diagonal.place(tiny, square).unwrap();
    }
    assert!(diagonal.can_place(small, Square::C2));

    let mut two = Board::new();
    for square in [Square::A1, Square::B2] {
        two = two.place(tiny, square).unwrap();
    }
    assert!(!two.can_place(small, Square::A1));
    assert!(two.can_place(small, Square::C3));
}

#[test]
fn covered_piece_shows_again_when_the_top_moves_away() {
    let mut board = Board::new();
    board = board
        .place(Piece::new(Color::White, Size::Tiny), Square::A3)
        .unwrap();
    board = board
        .place(Piece::new(Color::Black, Size::Medium), Square::A2)
        .unwrap();
    board = board.move_piece(Square::A2, Square::A3).unwrap();
    // A3 holds a piece of each color and shows Black only.
    assert!(board.exists_at(Square::A3));
    assert_eq!(board.color_combined(Color::Black), BitBoard::new(0x0080));
    assert_eq!(board.color_combined(Color::White), BitBoard::new(0x0000));
    assert_eq!(
        board.pieces(Piece::new(Color::White, Size::Tiny)),
        BitBoard::new(0x0080)
    );
    assert_eq!(
        board.pieces_at(Square::A3),
        PieceSet::from_slice(&[
            Piece::new(Color::White, Size::Tiny),
            Piece::new(Color::Black, Size::Medium)
        ])
    );
    board = board.move_piece(Square::A3, Square::D4).unwrap();
    assert_eq!(
        board.get_top(Square::A3),
        Some(Piece::new(Color::White, Size::Tiny))
    );
    assert_eq!(
        board.get_top(Square::D4),
        Some(Piece::new(Color::Black, Size::Medium))
    );
    assert_eq!(board.color_combined(Color::White), BitBoard::new(0x0080));
    assert_eq!(board.color_combined(Color::Black), BitBoard::new(0x0001));
}

#[test]
fn move_errors_name_both_squares() {
    let board = Board::new()
        .place(Piece::new(Color::Black, Size::Small), Square::A1)
        .unwrap()
        .place(Piece::new(Color::White, Size::Small), Square::B1)
        .unwrap();
    // Nothing to move.
    assert_eq!(
        board.move_piece(Square::D4, Square::A1).err(),
        Some(Error::InvalidMoving {
            from: Square::D4,
            to: Square::A1
        })
    );
    // Onto a piece of the same size.
    assert_eq!(
        board.move_piece(Square::A1, Square::B1).err(),
        Some(Error::InvalidMoving {
            from: Square::A1,
            to: Square::B1
        })
    );
    // Onto its own square.
    assert_eq!(
        board.move_piece(Square::A1, Square::A1).err(),
        Some(Error::InvalidMoving {
            from: Square::A1,
            to: Square::A1
        })
    );
}

#[test]
fn move_may_cover_the_other_color_without_three_in_a_row() {
    let board = Board::new()
        .place(Piece::new(Color::Black, Size::Big), Square::A1)
        .unwrap()
        .place(Piece::new(Color::White, Size::Small), Square::B1)
        .unwrap();
    assert!(!board.can_place(Piece::new(Color::Black, Size::Big), Square::B1));
    assert!(board.can_move(Piece::new(Color::Black, Size::Big), Square::B1));
    let moved = board.move_piece(Square::A1, Square::B1).unwrap();
    assert_eq!(
        moved.get_top(Square::B1),
        Some(Piece::new(Color::Black, Size::Big))
    );
    assert!(!moved.exists_at(Square::A1));
}

#[test]
fn combined_is_the_union_of_both_colors_and_of_all_pieces() {
    let mut board = Board::new();
    let steps = [
        (Piece::new(Color::White, Size::Tiny), Square::A3),
        (Piece::new(Color::Black, Size::Medium), Square::A2),
        (Piece::new(Color::White, Size::Big), Square::D4),
        (Piece::new(Color::Black, Size::Small), Square::B1),
        (Piece::new(Color::Black, Size::Big), Square::B1),
    ];
    for (piece, square) in steps {
        board = board.place(piece, square).unwrap();
        let both = board.color_combined(Color::Black) | board.color_combined(Color::White);
        assert_eq!(board.combined(), both);
        assert_eq!(
            board.color_combined(Color::Black) & board.color_combined(Color::White),
            BitBoard::new(0)
        );
        let mut any = BitBoard::new(0);
        for bitboard in bitboards(&board) {
            any = any | bitboard;
        }
        assert_eq!(board.combined(), any);
        for sq in Square::ALL {
            assert_eq!(board.exists_at(sq), any & sq != BitBoard::new(0));
        }
    }
    board = board.move_piece(Square::A2, Square::A3).unwrap();
    let both = board.color_combined(Color::Black) | board.color_combined(Color::White);
    assert_eq!(board.combined(), both);
    assert_eq!(both, BitBoard::new(0x4081));
}

fn total(board: &Board) -> u32 {
    let mut n = 0;
    for bitboard in bitboards(board) {
        n += u32::from(bitboard.popcount());
    }
    n
}

#[test]
fn place_adds_one_piece_and_move_adds_none() {
    let mut board = Board::new();
    assert_eq!(total(&board), 0);
    board = board
        .place(Piece::new(Color::White, Size::Tiny), Square::A3)
        .unwrap();
    assert_eq!(total(&board), 1);
    board = board
        .place(Piece::new(Color::Black, Size::Medium), Square::A3)
        .err()
        .map_or(board, |_| board);
    assert_eq!(total(&board), 1);
    board = board
        .place(Piece::new(Color::White, Size::Medium), Square::A3)
        .unwrap();
    assert_eq!(total(&board), 2);
    board = board.move_piece(Square::A3, Square::C1).unwrap();
    assert_eq!(total(&board), 2);
    assert_eq!(
        board.pieces(Piece::new(Color::White, Size::Medium)).popcount(),
        1
    );
    assert!(board.move_piece(Square::A3, Square::C1).is_err());
    assert_eq!(total(&board), 2);
}

#[test]
fn placed_piece_is_the_top_of_its_square() {
    let mut board = Board::new();
    for (size, square) in [
        (Size::Tiny, Square::A1),
        (Size::Small, Square::A1),
        (Size::Medium, Square::A1),
        (Size::Big, Square::A1),
        (Size::Big, Square::D4),
    ] {
        let piece = Piece::new(Color::Black, size);
        board = board.place(piece, square).unwrap();
        assert_eq!(board.get_top(square), Some(piece));
    }
    assert_eq!(
        board.pieces_at(Square::A1),
        PieceSet::from_slice(&[
            Piece::new(Color::Black, Size::Tiny),
            Piece::new(Color::Black, Size::Small),
            Piece::new(Color::Black, Size::Medium),
            Piece::new(Color::Black, Size::Big)
        ])
    );
}

#[test]
fn queries_give_the_same_answer_again() {
    let board = Board::new()
        .place(Piece::new(Color::Black, Size::Big), Square::C2)
        .unwrap()
        .place(Piece::new(Color::White, Size::Small), Square::B3)
        .unwrap();
    let before = bitboards(&board);
    for square in Square::ALL {
        assert_eq!(board.get_top(square), board.get_top(square));
        assert_eq!(board.exists_at(square), board.exists_at(square));
    }
    for color in Color::ALL {
        assert_eq!(board.has_won(color), board.has_won(color));
    }
    assert_eq!(bitboards(&board), before);
    assert_eq!(board.combined(), BitBoard::new(0x0240));
}

#[test]
fn each_line_of_four_wins() {
    let lines = [
        [Square::A1, Square::A2, Square::A3, Square::A4],
        [Square::B1, Square::B2, Square::B3, Square::B4],
        [Square::C1, Square::C2, Square::C3, Square::C4],
        [Square::D1, Square::D2, Square::D3, Square::D4],
        [Square::A1, Square::B1, Square::C1, Square::D1],
        [Square::A2, Square::B2, Square::C2, Square::D2],
        [Square::A3, Square::B3, Square::C3, Square::D3],
        [Square::A4, Square::B4, Square::C4, Square::D4],
        [Square::A1, Square::B2, Square::C3, Square::D4],
        [Square::D1, Square::C2, Square::B3, Square::A4],
    ];
    let masks = BitBoard::line_masks();
    for (i, line) in lines.iter().enumerate() {
        let mut board = Board::new();
        let mut members = BitBoard::empty();
        for (n, square) in line.iter().enumerate() {
            assert!(!board.has_won(Color::White));
            board = board
                .place(Piece::new(Color::White, Size::ALL[n]), *square)
                .unwrap();
            members = members | square;
        }
        assert_eq!(masks[i], members);
        assert!(board.has_won(Color::White));
        assert!(!board.has_won(Color::Black));
    }
}

#[test]
fn covered_square_does_not_count_for_a_line() {
    let mut board = Board::new();
    for square in [Square::A1, Square::B1, Square::C1, Square::D1] {
        board = board
            .place(Piece::new(Color::Black, Size::Small), square)
            .unwrap();
    }
    assert!(board.has_won(Color::Black));
    board = board
        .place(Piece::new(Color::White, Size::Big), Square::D4)
        .unwrap();
    board = board.move_piece(Square::D4, Square::B1).unwrap();
    assert!(!board.has_won(Color::Black));
    assert!(!board.has_won(Color::White));
    assert_eq!(board.color_combined(Color::Black), BitBoard::new(0xB000));
}

#[test]
fn board_iterates_by_value_and_by_reference() {
    let board = Board::new()
        .place(Piece::new(Color::Black, Size::Tiny), Square::D4)
        .unwrap()
        .place(Piece::new(Color::Black, Size::Big), Square::D4)
        .unwrap();
    let by_reference: Vec<PieceSet> = (&board).into_iter().collect();
    let by_value: Vec<PieceSet> = board.into_iter().collect();
    assert_eq!(by_reference, by_value);
    assert_eq!(by_value, board.piece_sets());
    assert_eq!(by_value.len(), 16);
    for (i, set) in by_value.iter().enumerate() {
        if i == 15 {
            assert_eq!(
                *set,
                PieceSet::from_slice(&[
                    Piece::new(Color::Black, Size::Tiny),
                    Piece::new(Color::Black, Size::Big)
                ])
            );
        } else {
            assert_eq!(*set, PieceSet::none());
        }
    }
}
