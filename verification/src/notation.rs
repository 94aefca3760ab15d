//! The compact textual move notation: square text like `f3`, and the two
//! accepted move forms `<piece><file><rank>` (origin resolved by scanning the
//! board) and `<piece><file><rank><file><rank>` (origin explicit; the board's
//! actual occupant is authoritative, the leading letter is advisory).

use vstd::prelude::*;

use vstd::string::StrSliceExecFns;

use crate::rules::{origin_matches, piece_at, space_at, valid_move};
use crate::{Board, ColourPiece, Move, Piece, Space, Square, square_at, square_of_index};

verus! {

/// The 0-based column a file character names; a digit is accepted as an
/// alias for the file with the same ordinal.
pub open spec fn column_of_char(c: char) -> Option<int> {
    if c == 'a' || c == '1' {
        Some(0int)
    } else if c == 'b' || c == '2' {
        Some(1int)
    } else if c == 'c' || c == '3' {
        Some(2int)
    } else if c == 'd' || c == '4' {
        Some(3int)
    } else if c == 'e' || c == '5' {
        Some(4int)
    } else if c == 'f' || c == '6' {
        Some(5int)
    } else if c == 'g' || c == '7' {
        Some(6int)
    } else if c == 'h' || c == '8' {
        Some(7int)
    } else {
        None
    }
}

/// The 0-based row a rank digit names.
pub open spec fn row_of_char(c: char) -> Option<int> {
    if c == '1' {
        Some(0int)
    } else if c == '2' {
        Some(1int)
    } else if c == '3' {
        Some(2int)
    } else if c == '4' {
        Some(3int)
    } else if c == '5' {
        Some(4int)
    } else if c == '6' {
        Some(5int)
    } else if c == '7' {
        Some(6int)
    } else if c == '8' {
        Some(7int)
    } else {
        None
    }
}

/// The piece kind a notation letter names.
pub open spec fn piece_kind_of_char(c: char) -> Option<Piece> {
    if c == 'p' {
        Some(Piece::Pawn)
    } else if c == 'b' {
        Some(Piece::Bishop)
    } else if c == 'n' {
        Some(Piece::Knight)
    } else if c == 'r' {
        Some(Piece::Rook)
    } else if c == 'q' {
        Some(Piece::Queen)
    } else if c == 'k' {
        Some(Piece::King)
    } else {
        None
    }
}

/// `j` is the one and only candidate origin for a piece of the same kind
/// and colour as `piece` reaching `(rw, c)`.
pub open spec fn unique_origin(b: Board, piece: ColourPiece, rw: int, c: int, j: int) -> bool {
    &&& origin_matches(b, piece, rw, c, j)
    &&& forall|k: int| #[trigger] origin_matches(b, piece, rw, c, k) ==> k == j
}

/// The move that well-formed notation text resolves to on `b`, if any: the
/// three-character form needs exactly one piece of the named kind and the
/// side to move able to reach the target; the five-character form reads the
/// origin square's occupant directly.
pub open spec fn parse_result(text: Seq<char>, b: Board) -> Option<Move> {
    if text.len() == 3 {
        match piece_kind_of_char(text[0]) {
            Some(kind) => {
                let piece = ColourPiece { variant: kind, colour: b.turn };
                match (column_of_char(text[1]), row_of_char(text[2])) {
                    (Some(c), Some(rw)) => {
                        if exists|j: int| #[trigger] unique_origin(b, piece, rw, c, j) {
                            let j = choose|j: int| #[trigger] unique_origin(b, piece, rw, c, j);
                            Some(
                                Move {
                                    piece: piece_at(b.pieces@, j / 8, j % 8),
                                    start: square_of_index(j),
                                    end: square_at(rw, c),
                                },
                            )
                        } else {
                            None
                        }
                    },
                    _ => None,
                }
            },
            None => None,
        }
    } else if text.len() == 5 {
        match (column_of_char(text[1]), row_of_char(text[2]), column_of_char(text[3]), row_of_char(
            text[4],
        )) {
            (Some(c1), Some(r1), Some(c2), Some(r2)) => {
                if space_at(b.pieces@, r1, c1) is Full {
                    let m = Move {
                        piece: piece_at(b.pieces@, r1, c1),
                        start: square_at(r1, c1),
                        end: square_at(r2, c2),
                    };
                    if valid_move(b, m) {
                        Some(m)
                    } else {
                        None
                    }
                } else {
                    None
                }
            },
            _ => None,
        }
    } else {
        None
    }
}

impl Square {
    /// Parse a square from a file character and a rank digit. Unlike the
    /// square constructors, malformed text is a recoverable error.
    pub fn from_str(coords: &[char]) -> (r: Result<Square, String>)
        requires
            coords@.len() >= 2,
        ensures
            match r {
                Ok(sq) => {
                    &&& column_of_char(coords@[0]) matches Some(c) && row_of_char(coords@[1])
                        matches Some(rw) && sq == square_at(rw, c)
                    &&& sq.wf()
                },
                Err(_) => column_of_char(coords@[0]) is None || row_of_char(coords@[1]) is None,
            },
    {
        let c0 = coords[0];
        let column: i32 = if c0 == 'a' || c0 == '1' {
            0
        } else if c0 == 'b' || c0 == '2' {
            1
        } else if c0 == 'c' || c0 == '3' {
            2
        } else if c0 == 'd' || c0 == '4' {
            3
        } else if c0 == 'e' || c0 == '5' {
            4
        } else if c0 == 'f' || c0 == '6' {
            5
        } else if c0 == 'g' || c0 == '7' {
            6
        } else if c0 == 'h' || c0 == '8' {
            7
        } else {
            return Err("Invalid column letter".to_owned());
        };
        let c1 = coords[1];
        let row: i32 = if c1 == '1' {
            0
        } else if c1 == '2' {
            1
        } else if c1 == '3' {
            2
        } else if c1 == '4' {
            3
        } else if c1 == '5' {
            4
        } else if c1 == '6' {
            5
        } else if c1 == '7' {
            6
        } else if c1 == '8' {
            7
        } else if c1 == '0' || c1 == '9' {
            return Err("Row was not 1 to 8".to_owned());
        } else {
            return Err("Row was not a number".to_owned());
        };

        let index = (row * 8) + column;
        proof {
            crate::lemma_square_at_index(row as int, column as int);
        }
        Ok(Square::from_index(index))
    }
}

impl ColourPiece {
    /// The piece a notation letter names, owned by the side to move.
    pub(crate) fn from_char(char: char, board: &Board) -> (r: Option<ColourPiece>)
        ensures
            r == match piece_kind_of_char(char) {
                Some(kind) => Some(ColourPiece { variant: kind, colour: board.turn }),
                None => None::<ColourPiece>,
            },
    {
        match char {
            'p' => Some(ColourPiece { variant: Piece::Pawn, colour: board.turn }),
            'b' => Some(ColourPiece { variant: Piece::Bishop, colour: board.turn }),
            'n' => Some(ColourPiece { variant: Piece::Knight, colour: board.turn }),
            'r' => Some(ColourPiece { variant: Piece::Rook, colour: board.turn }),
            'q' => Some(ColourPiece { variant: Piece::Queen, colour: board.turn }),
            'k' => Some(ColourPiece { variant: Piece::King, colour: board.turn }),
            _ => None,
        }
    }
}

/// Resolve the three-character form `<piece><file><rank>`.
fn parse_move_short(move_string: &str, board: &Board) -> (r: Result<Move, String>)
    requires
        move_string.is_ascii(),
        move_string@.len() == 3,
    ensures
        match r {
            Ok(m) => parse_result(move_string@, *board) == Some(m) && m.wf(),
            Err(_) => parse_result(move_string@, *board) is None,
        },
        ({
            let piece = ColourPiece {
                variant: piece_kind_of_char(move_string@[0])->0,
                colour: board.turn,
            };
            let c = column_of_char(move_string@[1])->0;
            let rw = row_of_char(move_string@[2])->0;
            (piece_kind_of_char(move_string@[0]) is Some && column_of_char(move_string@[1])
                is Some && row_of_char(move_string@[2]) is Some && (exists|j: int, k: int|
                j != k && #[trigger] origin_matches(*board, piece, rw, c, j)
                    && #[trigger] origin_matches(*board, piece, rw, c, k))) ==> (r matches Err(e)
                && e@ == "Try choosing a piece with a specific coordinate. E.g. rb3b5"@)
        }),
{
    let piece_type = match ColourPiece::from_char(move_string.get_char(0), board) {
        Some(p) => p,
        None => {
            return Err("Invalid piece type".to_owned());
        },
    };
    let mut target_chars: Vec<char> = Vec::new();
    target_chars.push(move_string.get_char(1));
    target_chars.push(move_string.get_char(2));
    let end_square = match Square::from_str(target_chars.as_slice()) {
        Ok(sq) => sq,
        Err(e) => {
            return Err(e);
        },
    };
    let ghost c = column_of_char(move_string@[1])->0;
    let ghost rw = row_of_char(move_string@[2])->0;

    let start_square = match board.locate_from_target_move(&piece_type, end_square) {
        Ok(sq) => sq,
        Err(e) => {
            proof {
                if exists|j: int| #[trigger] unique_origin(*board, piece_type, rw, c, j) {
                    let j = choose|j: int| #[trigger] unique_origin(*board, piece_type, rw, c, j);
                    assert(origin_matches(*board, piece_type, rw, c, j));
                }
            }
            return Err(e);
        },
    };

    // The colour on the temporary piece value is only used to pick the scan;
    // the piece actually standing on the located square is authoritative.
    match board.pieces[start_square.index as usize] {
        Space::Full(actual_piece) => {
            let new_move = Move { piece: actual_piece, start: start_square, end: end_square };
            proof {
                crate::lemma_square_at_index(
                    start_square.index as int / 8,
                    start_square.index as int % 8,
                );
                assert(valid_move(*board, new_move));
            }
            if board.validate_move(new_move) {
                proof {
                    let j0 = start_square.index as int;
                    assert(unique_origin(*board, piece_type, rw, c, j0));
                    let j = choose|j: int| #[trigger] unique_origin(*board, piece_type, rw, c, j);
                    assert(origin_matches(*board, piece_type, rw, c, j));
                    assert(j == j0);
                }
                Ok(new_move)
            } else {
                Err("parse_str_move: Move was invalid".to_owned())
            }
        },
        Space::Empty => {
            proof {
                assert(false);
            }
            Err("Start square did not have a valid piece on it".to_owned())
        },
    }
}

/// Resolve the five-character form `<piece><file><rank><file><rank>`.
fn parse_move_long(move_string: &str, board: &Board) -> (r: Result<Move, String>)
    requires
        move_string.is_ascii(),
        move_string@.len() == 5,
    ensures
        match r {
            Ok(m) => parse_result(move_string@, *board) == Some(m) && m.wf(),
            Err(_) => parse_result(move_string@, *board) is None,
        },
{
    let mut start_chars: Vec<char> = Vec::new();
    start_chars.push(move_string.get_char(1));
    start_chars.push(move_string.get_char(2));
    let start_square = match Square::from_str(start_chars.as_slice()) {
        Ok(sq) => sq,
        Err(e) => {
            return Err(e);
        },
    };
    let mut end_chars: Vec<char> = Vec::new();
    end_chars.push(move_string.get_char(3));
    end_chars.push(move_string.get_char(4));
    let end_square = match Square::from_str(end_chars.as_slice()) {
        Ok(sq) => sq,
        Err(e) => {
            return Err(e);
        },
    };

    match board.pieces[start_square.index as usize] {
        Space::Full(actual_piece) => {
            let new_move = Move { piece: actual_piece, start: start_square, end: end_square };
            if board.validate_move(new_move) {
                Ok(new_move)
            } else {
                Err("parse_str: Move was invalid".to_owned())
            }
        },
        Space::Empty => Err("Start square had no piece on it".to_owned()),
    }
}

/// Parse a textual move against `board`: `nf3` finds the unique knight that
/// can reach f3, `ng1f3` names both squares explicitly. The board is only
/// read; a resolved move has passed the full pseudo-legality check.
pub fn parse_str_move(move_string: &str, board: &Board) -> (r: Result<Move, String>)
    ensures
        match r {
            Ok(m) => {
                &&& move_string.is_ascii()
                &&& parse_result(move_string@, *board) == Some(m)
                &&& m.wf()
            },
            Err(_) => !move_string.is_ascii() || parse_result(move_string@, *board) is None,
        },
        ({
            let piece = ColourPiece {
                variant: piece_kind_of_char(move_string@[0])->0,
                colour: board.turn,
            };
            let c = column_of_char(move_string@[1])->0;
            let rw = row_of_char(move_string@[2])->0;
            (move_string.is_ascii() && move_string@.len() == 3 && piece_kind_of_char(
                move_string@[0],
            ) is Some && column_of_char(move_string@[1]) is Some && row_of_char(move_string@[2])
                is Some && (exists|j: int, k: int|
                j != k && #[trigger] origin_matches(*board, piece, rw, c, j)
                    && #[trigger] origin_matches(*board, piece, rw, c, k))) ==> (r matches Err(e)
                && e@ == "Try choosing a piece with a specific coordinate. E.g. rb3b5"@)
        }),
{
    if !move_string.is_ascii() {
        return Err("String passed was not ascii".to_owned());
    }

    let length = move_string.unicode_len();
    if length == 3 {
        parse_move_short(move_string, board)
    } else if length == 5 {
        parse_move_long(move_string, board)
    } else {
        Err("Invalid length passed".to_owned())
    }
}

} // verus!
