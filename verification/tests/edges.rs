use chess::{Board, CastleRights, Colour, ColourPiece, Coord, Piece, Space};

fn empty_board(turn: Colour) -> Board {
    let mut board = Board::new();
    for i in 0..64 {
        board.pieces[i] = Space::Empty;
    }
    board.turn = turn;
    board.white_rights = CastleRights { queen_side: false, king_side: false };
    board.black_rights = CastleRights { queen_side: false, king_side: false };
    board
}

fn put(board: &mut Board, row: i32, column: i32, variant: Piece, colour: Colour) {
    board.pieces[(row * 8 + column) as usize] = Space::Full(ColourPiece { variant, colour });
}

fn moves_of(board: &Board, row: i32, column: i32) -> usize {
    let index = row * 8 + column;
    match board.pieces[index as usize] {
        Space::Full(piece) => board.get_piece_moves(piece, index, false).len(),
        Space::Empty => 0,
    }
}

/// A pawn cannot capture straight ahead: any piece directly in front blocks
/// it completely.
#[test]
fn pawn_blocked_ahead() {
    let mut board = Board::new();
    put(&mut board, 2, 0, Piece::Knight, Colour::Black);
    assert_eq!(moves_of(&board, 1, 0), 0);
}

/// A pawn captures diagonally, and only onto an opposing piece.
#[test]
fn pawn_diagonal_capture() {
    let mut board = Board::new();
    put(&mut board, 2, 1, Piece::Knight, Colour::Black);
    // The a2 pawn gains the capture on b3 next to its two forward steps.
    assert_eq!(moves_of(&board, 1, 0), 3);
    // A friendly piece on the diagonal is not a destination.
    put(&mut board, 2, 1, Piece::Knight, Colour::White);
    assert_eq!(moves_of(&board, 1, 0), 2);
}

/// Sliding pieces stop at the first occupied square and may take an
/// opposing blocker but not a friendly one.
#[test]
fn rook_ray_blocking() {
    let mut board = empty_board(Colour::White);
    put(&mut board, 3, 3, Piece::Rook, Colour::White);
    // An open board gives the rook its full two lines.
    assert_eq!(moves_of(&board, 3, 3), 14);
    // An opposing piece two squares to the right ends that arm with a
    // capture; a friendly piece above ends that arm without one.
    put(&mut board, 3, 5, Piece::Pawn, Colour::Black);
    put(&mut board, 5, 3, Piece::Pawn, Colour::White);
    assert_eq!(moves_of(&board, 3, 3), 3 + 2 + 3 + 1);
}

/// Queen-side castling relocates the a-file rook to the d-file.
#[test]
fn castle_queen_side() {
    let mut board = Board::new();
    board.pieces[1] = Space::Empty;
    board.pieces[2] = Space::Empty;
    board.pieces[3] = Space::Empty;
    board
        .attempt_move_with_coords(Coord { row: 0, column: 4 }, Coord { row: 0, column: 2 })
        .unwrap();
    assert!(matches!(
        board.pieces[2],
        Space::Full(ColourPiece { variant: Piece::King, colour: Colour::White })
    ));
    assert!(matches!(
        board.pieces[3],
        Space::Full(ColourPiece { variant: Piece::Rook, colour: Colour::White })
    ));
    assert!(matches!(board.pieces[0], Space::Empty));
    assert!(matches!(board.pieces[4], Space::Empty));
}

/// Castling is refused while a square the king travels over is threatened.
#[test]
fn castle_blocked_by_threat() {
    let mut board = empty_board(Colour::White);
    put(&mut board, 0, 4, Piece::King, Colour::White);
    put(&mut board, 0, 7, Piece::Rook, Colour::White);
    put(&mut board, 7, 0, Piece::King, Colour::Black);
    put(&mut board, 7, 5, Piece::Rook, Colour::Black);
    board.white_rights = CastleRights { queen_side: false, king_side: true };
    let result =
        board.attempt_move_with_coords(Coord { row: 0, column: 4 }, Coord { row: 0, column: 6 });
    assert!(result.is_err());
}

/// Castling with the king currently in check is not refused: the engine only
/// examines the travelled squares, never the king's current one.
#[test]
fn castle_out_of_check_permitted() {
    let mut board = empty_board(Colour::White);
    put(&mut board, 0, 4, Piece::King, Colour::White);
    put(&mut board, 0, 7, Piece::Rook, Colour::White);
    put(&mut board, 7, 0, Piece::King, Colour::Black);
    put(&mut board, 7, 4, Piece::Rook, Colour::Black);
    board.white_rights = CastleRights { queen_side: false, king_side: true };
    board
        .attempt_move_with_coords(Coord { row: 0, column: 4 }, Coord { row: 0, column: 6 })
        .unwrap();
    assert!(matches!(
        board.pieces[6],
        Space::Full(ColourPiece { variant: Piece::King, colour: Colour::White })
    ));
}

/// Using castling rights after the flag is gone is refused even with a
/// clear path.
#[test]
fn castle_needs_right() {
    let mut board = empty_board(Colour::White);
    put(&mut board, 0, 4, Piece::King, Colour::White);
    put(&mut board, 0, 7, Piece::Rook, Colour::White);
    put(&mut board, 7, 0, Piece::King, Colour::Black);
    let result =
        board.attempt_move_with_coords(Coord { row: 0, column: 4 }, Coord { row: 0, column: 6 });
    assert!(result.is_err());
}

/// An empty start square is reported as such by the coordinate wrapper.
#[test]
fn empty_start_square() {
    let mut board = Board::new();
    let result =
        board.attempt_move_with_coords(Coord { row: 3, column: 3 }, Coord { row: 4, column: 3 });
    assert_eq!(result.unwrap_err(), "Empty square used as start.");
    let off =
        board.attempt_move_with_coords(Coord { row: -1, column: 3 }, Coord { row: 4, column: 3 });
    assert_eq!(off.unwrap_err(), "attempt_move: Invalid coords passed");
}
