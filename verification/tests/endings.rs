use chess::{
    parse_str_move, Board, CastleRights, Colour, ColourPiece, Coord, GameState, Piece, Space,
};

fn empty_board(turn: Colour) -> Board {
    let mut board = Board::new();
    for i in 0..64 {
        board.pieces[i] = Space::Empty;
    }
    board.turn = turn;
    board.white_rights = CastleRights { queen_side: false, king_side: false };
    board.black_rights = CastleRights { queen_side: false, king_side: false };
    board
}

fn put(board: &mut Board, row: i32, column: i32, variant: Piece, colour: Colour) {
    board.pieces[(row * 8 + column) as usize] = Space::Full(ColourPiece { variant, colour });
}

/// Scenario B: the fool's-mate sequence f2f3, e7e5, g2g4, d8h4 ends with the
/// final move reporting checkmate of White.
#[test]
fn fools_mate() {
    let mut board = Board::new();
    let s1 = board
        .attempt_move_with_coords(Coord { row: 1, column: 5 }, Coord { row: 2, column: 5 })
        .unwrap();
    assert_eq!(s1, GameState::Playing);
    let s2 = board
        .attempt_move_with_coords(Coord { row: 6, column: 4 }, Coord { row: 4, column: 4 })
        .unwrap();
    assert_eq!(s2, GameState::Playing);
    let s3 = board
        .attempt_move_with_coords(Coord { row: 1, column: 6 }, Coord { row: 3, column: 6 })
        .unwrap();
    assert_eq!(s3, GameState::Playing);
    let s4 = board
        .attempt_move_with_coords(Coord { row: 7, column: 3 }, Coord { row: 3, column: 7 })
        .unwrap();
    assert_eq!(s4, GameState::Checkmate(Colour::White));
}

/// The same mate, driven through the textual notation.
#[test]
fn fools_mate_notation() {
    let mut board = Board::new();
    for (text, expected) in [
        ("pf3", GameState::Playing),
        ("pe5", GameState::Playing),
        ("pg4", GameState::Playing),
        ("qh4", GameState::Checkmate(Colour::White)),
    ] {
        let mv = parse_str_move(text, &board).unwrap();
        let state = board.move_piece(mv).unwrap();
        assert_eq!(state, expected);
    }
}

/// A queen move that boxes the lone black king in without checking it ends
/// the game in stalemate.
#[test]
fn stalemate_reported() {
    let mut board = empty_board(Colour::White);
    put(&mut board, 7, 7, Piece::King, Colour::Black);
    put(&mut board, 6, 5, Piece::King, Colour::White);
    put(&mut board, 4, 6, Piece::Queen, Colour::White);
    let state = board
        .attempt_move_with_coords(Coord { row: 4, column: 6 }, Coord { row: 5, column: 6 })
        .unwrap();
    assert_eq!(state, GameState::Stalemate);
}

/// A back-rank mate is classified as checkmate of the side to move.
#[test]
fn back_rank_mate() {
    let mut board = empty_board(Colour::White);
    put(&mut board, 7, 7, Piece::King, Colour::Black);
    put(&mut board, 6, 6, Piece::Pawn, Colour::Black);
    put(&mut board, 6, 7, Piece::Pawn, Colour::Black);
    put(&mut board, 0, 0, Piece::Rook, Colour::White);
    put(&mut board, 0, 4, Piece::King, Colour::White);
    let state = board
        .attempt_move_with_coords(Coord { row: 0, column: 0 }, Coord { row: 7, column: 0 })
        .unwrap();
    assert_eq!(state, GameState::Checkmate(Colour::Black));
}
