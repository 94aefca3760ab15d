use chess::{parse_str_move, Board, Colour, ColourPiece, Piece, Space};

/// Scenario C, first half: `nf3` on the start board resolves unambiguously
/// to the g1 knight moving to f3.
#[test]
fn short_form_resolves_unique_knight() {
    let board = Board::new();
    let mv = parse_str_move("nf3", &board).unwrap();
    assert_eq!(mv.piece, ColourPiece { variant: Piece::Knight, colour: Colour::White });
    assert_eq!(mv.start.index, 6);
    assert_eq!(mv.end.coord.row, 2);
    assert_eq!(mv.end.coord.column, 5);
}

/// Scenario C, second half: with two knights able to reach f3 the short
/// form is ambiguous and asks for the five-character form.
#[test]
fn short_form_ambiguous() {
    let mut board = Board::new();
    // A second White knight on h2 can also jump to f3.
    board.pieces[15] =
        Space::Full(ColourPiece { variant: Piece::Knight, colour: Colour::White });
    let err = parse_str_move("nf3", &board).unwrap_err();
    assert_eq!(err, "Try choosing a piece with a specific coordinate. E.g. rb3b5");
}

/// No piece of the named kind can reach the target square.
#[test]
fn short_form_no_candidate() {
    let board = Board::new();
    let err = parse_str_move("bf3", &board).unwrap_err();
    assert_eq!(err, "No pieces can make that move.");
}

/// The five-character form names both squares; the piece letter is advisory
/// and the square's actual occupant is what moves.
#[test]
fn long_form_reads_the_board() {
    let board = Board::new();
    let mv = parse_str_move("ng1f3", &board).unwrap();
    assert_eq!(mv.start.index, 6);
    assert_eq!(mv.end.index, 21);

    // A mismatched leading letter still moves the actual occupant.
    let advisory = parse_str_move("qg1f3", &board).unwrap();
    assert_eq!(advisory.piece, ColourPiece { variant: Piece::Knight, colour: Colour::White });
}

/// Malformed text is rejected without touching the board.
#[test]
fn malformed_text_rejected() {
    let board = Board::new();
    assert_eq!(parse_str_move("é7", &board).unwrap_err(), "String passed was not ascii");
    assert_eq!(parse_str_move("nf", &board).unwrap_err(), "Invalid length passed");
    assert_eq!(parse_str_move("xf3", &board).unwrap_err(), "Invalid piece type");
    assert_eq!(parse_str_move("nf9", &board).unwrap_err(), "Row was not 1 to 8");
    assert_eq!(
        parse_str_move("pa4a5", &board).unwrap_err(),
        "Start square had no piece on it"
    );
    // A pseudo-legal check on the explicit form still applies.
    assert_eq!(
        parse_str_move("pa2a5", &board).unwrap_err(),
        "parse_str: Move was invalid"
    );
}
