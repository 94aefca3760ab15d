use chess::{Board, CastleRights, Colour, ColourPiece, Coord, GameState, Move, Piece, Space, Square};

fn empty_board(turn: Colour) -> Board {
    let mut board = Board::new();
    for i in 0..64 {
        board.pieces[i] = Space::Empty;
    }
    board.turn = turn;
    board.white_rights = CastleRights { queen_side: false, king_side: false };
    board.black_rights = CastleRights { queen_side: false, king_side: false };
    board
}

fn put(board: &mut Board, row: i32, column: i32, variant: Piece, colour: Colour) {
    board.pieces[(row * 8 + column) as usize] = Space::Full(ColourPiece { variant, colour });
}

/// Every piece of the start position has its textbook opening move count:
/// two destinations for each pawn and each knight, none for anything else.
#[test]
fn opening_move_counts() {
    let board = Board::new();
    for index in 0..64i32 {
        let coord = Square::from_index(index).coord;
        if let Some(piece) = board.piece_at_coord(&coord) {
            let count = board.get_piece_moves(piece, index, false).len();
            let expected = match piece.variant {
                Piece::Pawn => 2,
                Piece::Knight => 2,
                _ => 0,
            };
            assert_eq!(count, expected);
        }
    }
}

/// A move the generator does not emit is rejected and the board is left
/// byte-for-byte unchanged.
#[test]
fn invalid_move_rejected() {
    let mut board = Board::new();
    let before = board;
    // A pawn cannot advance three squares.
    let bad = Move {
        piece: ColourPiece { variant: Piece::Pawn, colour: Colour::White },
        start: Square::from_coord(&Coord { row: 1, column: 1 }),
        end: Square::from_coord(&Coord { row: 4, column: 1 }),
    };
    let result = board.move_piece(bad);
    assert_eq!(result.unwrap_err(), "move_piece: Move was invalid...");
    assert_eq!(board, before);
}

/// Scenario A: from the start position the pawn move b2-b3 succeeds, the
/// game goes on, and it becomes Black's turn.
#[test]
fn pawn_push_switches_turn() {
    let mut board = Board::new();
    let state = board
        .attempt_move_with_coords(Coord { row: 1, column: 1 }, Coord { row: 2, column: 1 })
        .unwrap();
    assert_eq!(state, GameState::Playing);
    assert_eq!(board.turn, Colour::Black);
    assert!(matches!(
        board.pieces[(2 * 8 + 1) as usize],
        Space::Full(ColourPiece { variant: Piece::Pawn, colour: Colour::White })
    ));
}

/// Scenario D: moving a White piece while it is Black's turn fails with the
/// turn-mismatch error and does not mutate the board.
#[test]
fn wrong_turn_rejected() {
    let mut board = Board::new();
    let before_black = board;
    // Black tries to move first.
    let result =
        board.attempt_move_with_coords(Coord { row: 6, column: 4 }, Coord { row: 5, column: 4 });
    assert_eq!(result.unwrap_err(), "It is currently White's turn!");
    assert_eq!(board, before_black);
}

/// Round trip: a knight hop out and straight back restores the whole game
/// state, castling rights included (a knight move never touches them).
#[test]
fn knight_round_trip() {
    let mut board = Board::new();
    board
        .attempt_move_with_coords(Coord { row: 0, column: 6 }, Coord { row: 2, column: 5 })
        .unwrap();
    // Black replies so that it is White's turn again.
    board
        .attempt_move_with_coords(Coord { row: 7, column: 6 }, Coord { row: 5, column: 5 })
        .unwrap();
    // Both knights hop back.
    board
        .attempt_move_with_coords(Coord { row: 2, column: 5 }, Coord { row: 0, column: 6 })
        .unwrap();
    board
        .attempt_move_with_coords(Coord { row: 5, column: 5 }, Coord { row: 7, column: 6 })
        .unwrap();
    assert_eq!(board, Board::new());
}

/// Round trip with a capture: undoing a capturing move restores everything
/// except the captured piece, whose square stays empty.
#[test]
fn capture_round_trip() {
    let mut board = empty_board(Colour::White);
    put(&mut board, 0, 0, Piece::King, Colour::White);
    put(&mut board, 7, 7, Piece::King, Colour::Black);
    put(&mut board, 3, 3, Piece::Rook, Colour::White);
    put(&mut board, 3, 6, Piece::Knight, Colour::Black);
    let before = board;

    // The rook takes the knight, Black's king steps away and back, and the
    // rook returns to d4.
    let capture = Move {
        piece: ColourPiece { variant: Piece::Rook, colour: Colour::White },
        start: Square::from_coord(&Coord { row: 3, column: 3 }),
        end: Square::from_coord(&Coord { row: 3, column: 6 }),
    };
    board.move_piece(capture).unwrap();
    board
        .attempt_move_with_coords(Coord { row: 7, column: 7 }, Coord { row: 6, column: 7 })
        .unwrap();
    board.move_piece(capture.inverse()).unwrap();
    board
        .attempt_move_with_coords(Coord { row: 6, column: 7 }, Coord { row: 7, column: 7 })
        .unwrap();

    for i in 0..64 {
        if i == 3 * 8 + 6 {
            // The captured knight is gone for good.
            assert!(matches!(board.pieces[i], Space::Empty));
        } else {
            assert_eq!(board.pieces[i], before.pieces[i]);
        }
    }
    assert_eq!(board.turn, Colour::White);
}

/// Scenario E: a pawn reaching the last rank is automatically promoted; the
/// destination square holds a queen of the mover's colour, not a pawn.
#[test]
fn pawn_auto_promotes() {
    let mut board = empty_board(Colour::White);
    put(&mut board, 6, 0, Piece::Pawn, Colour::White);
    put(&mut board, 0, 7, Piece::King, Colour::White);
    put(&mut board, 7, 7, Piece::King, Colour::Black);
    let state = board
        .attempt_move_with_coords(Coord { row: 6, column: 0 }, Coord { row: 7, column: 0 })
        .unwrap();
    assert_eq!(state, GameState::Playing);
    assert!(matches!(
        board.pieces[56],
        Space::Full(ColourPiece { variant: Piece::Queen, colour: Colour::White })
    ));
}

/// A move that would leave the mover's own king in check is rejected and
/// the board is unchanged.
#[test]
fn self_check_rejected() {
    let mut board = empty_board(Colour::White);
    put(&mut board, 0, 3, Piece::King, Colour::White);
    put(&mut board, 7, 0, Piece::King, Colour::Black);
    put(&mut board, 7, 4, Piece::Rook, Colour::Black);
    let before = board;
    // Stepping onto the e-file walks into the rook's line.
    let result =
        board.attempt_move_with_coords(Coord { row: 0, column: 3 }, Coord { row: 1, column: 4 });
    assert_eq!(result.unwrap_err(), "White would be in check!");
    assert_eq!(board, before);
    // A step the other way is fine.
    board
        .attempt_move_with_coords(Coord { row: 0, column: 3 }, Coord { row: 0, column: 2 })
        .unwrap();
}

/// King-side castling: the king travels two columns and the rook jumps to
/// the far side of it; both of the mover's rights flags are cleared.
#[test]
fn castle_king_side() {
    let mut board = Board::new();
    // Clear f1 and g1 so the path is free.
    board.pieces[5] = Space::Empty;
    board.pieces[6] = Space::Empty;
    let state = board
        .attempt_move_with_coords(Coord { row: 0, column: 4 }, Coord { row: 0, column: 6 })
        .unwrap();
    assert_eq!(state, GameState::Playing);
    assert!(matches!(
        board.pieces[6],
        Space::Full(ColourPiece { variant: Piece::King, colour: Colour::White })
    ));
    assert!(matches!(
        board.pieces[5],
        Space::Full(ColourPiece { variant: Piece::Rook, colour: Colour::White })
    ));
    assert!(matches!(board.pieces[7], Space::Empty));
    assert!(matches!(board.pieces[4], Space::Empty));
    assert_eq!(board.white_rights, CastleRights { queen_side: false, king_side: false });
    assert_eq!(board.black_rights, CastleRights { queen_side: true, king_side: true });
}

/// Moving a rook off its original corner clears exactly that side's flag.
#[test]
fn rook_move_clears_one_right() {
    let mut board = Board::new();
    board.pieces[15] = Space::Empty;  // clear the h2 pawn
    board
        .attempt_move_with_coords(Coord { row: 0, column: 7 }, Coord { row: 1, column: 7 })
        .unwrap();
    assert_eq!(board.white_rights, CastleRights { queen_side: true, king_side: false });
    assert_eq!(board.black_rights, CastleRights { queen_side: true, king_side: true });
}

/// `can_square_move` is true only for the side to move's pieces that have
/// somewhere to go.
#[test]
fn selectable_squares() {
    let board = Board::new();
    assert!(board.can_square_move(&board.pieces[8], &Square::from_index(8)));
    assert!(!board.can_square_move(&board.pieces[48], &Square::from_index(48)));
    assert!(!board.can_square_move(&board.pieces[27], &Square::from_index(27)));
    // The rook in the corner has no destinations yet.
    assert!(!board.can_square_move(&board.pieces[0], &Square::from_index(0)));
}
