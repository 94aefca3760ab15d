//! A two-player chess rules engine: board representation, pseudo-legal move
//! generation, check detection by move simulation, castling, pawn promotion,
//! end-of-game classification, and a compact textual move notation.
//!
//! Board orientation: index 0 is the bottom-left square from White's
//! perspective; rows 0 and 1 hold White's back rank and pawns, rows 6 and 7
//! hold Black's. The linear index of a square is `row * 8 + column`.

use vstd::prelude::*;

pub mod laws;
pub mod moves;
pub mod rules;

pub mod notation;

mod board;
mod util;

pub use notation::parse_str_move;

verus! {

/// The two players. White moves first.
#[derive(Copy, Clone, PartialEq, Eq, Structural, Debug)]
pub enum Colour {
    White,
    Black,
}

impl Colour {
    /// The opposing player's colour.
    pub open spec fn opposite(self) -> Colour {
        match self {
            Colour::White => Colour::Black,
            Colour::Black => Colour::White,
        }
    }

    /// Flip the colour to the opposing player's.
    pub fn invert(self) -> (r: Colour)
        ensures
            r == self.opposite(),
    {
        match self {
            Colour::White => Colour::Black,
            Colour::Black => Colour::White,
        }
    }
}

/// The six piece kinds.
#[derive(Copy, Clone, PartialEq, Eq, Structural, Debug)]
pub enum Piece {
    Pawn,
    Knight,
    Bishop,
    Rook,
    Queen,
    King,
}

/// The two sides a king may castle towards.
#[derive(Copy, Clone, PartialEq, Eq, Structural, Debug)]
pub enum CastleSide {
    King,
    Queen,
}

/// A piece together with the colour of its owner.
#[derive(Copy, Clone, PartialEq, Eq, Structural, Debug)]
pub struct ColourPiece {
    pub variant: Piece,
    pub colour: Colour,
}

/// The contents of one board square.
#[derive(Copy, Clone, PartialEq, Eq, Structural, Debug)]
pub enum Space {
    Empty,
    Full(ColourPiece),
}

/// An arbitrary coordinate; may lie outside the board while move offsets are
/// being computed, before range validation.
#[derive(Copy, Clone, PartialEq, Eq, Structural, Debug)]
pub struct Coord {
    pub row: i32,
    pub column: i32,
}

/// A coordinate that actually exists on the board, together with its derived
/// linear index (`row * 8 + column`).
#[derive(Copy, Clone, PartialEq, Eq, Structural, Debug)]
pub struct Square {
    pub coord: Coord,
    pub index: i32,
}

impl Square {
    /// Well-formedness: both coordinates in range and the index derived.
    pub open spec fn wf(self) -> bool {
        &&& 0 <= self.coord.row < 8
        &&& 0 <= self.coord.column < 8
        &&& self.index == self.coord.row * 8 + self.coord.column
    }

    /// The square with the given linear index.
    ///
    /// Constructing a square from an out-of-range index is a caller bug, so
    /// the index must be validated beforehand.
    pub fn from_index(index: i32) -> (r: Square)
        requires
            0 <= index < 64,
        ensures
            r == square_of_index(index as int),
            r.wf(),
    {
        Square {
            coord: Coord { column: index % 8, row: index / 8 },
            index,
        }
    }

    /// The square at the given coordinate.
    ///
    /// Constructing a square from an out-of-range coordinate is a caller bug,
    /// so the coordinate must be validated beforehand.
    pub fn from_coord(coord: &Coord) -> (r: Square)
        requires
            coord_on_board(coord.row as int, coord.column as int),
        ensures
            r == square_at(coord.row as int, coord.column as int),
            r.wf(),
    {
        Square {
            index: (coord.row * 8) + coord.column,
            coord: *coord,
        }
    }
}

/// True iff the coordinate lies on the board.
pub open spec fn coord_on_board(row: int, column: int) -> bool {
    0 <= row < 8 && 0 <= column < 8
}

/// The square with linear index `i`, for `i` in `[0, 64)`.
pub open spec fn square_of_index(i: int) -> Square {
    Square {
        coord: Coord { row: (i / 8) as i32, column: (i % 8) as i32 },
        index: i as i32,
    }
}

/// The square at coordinate `(row, column)`, for an on-board coordinate.
pub open spec fn square_at(row: int, column: int) -> Square {
    Square {
        coord: Coord { row: row as i32, column: column as i32 },
        index: (row * 8 + column) as i32,
    }
}

/// The two ways of writing one on-board square coincide.
pub proof fn lemma_square_at_index(row: int, column: int)
    requires
        coord_on_board(row, column),
    ensures
        square_at(row, column) == square_of_index(row * 8 + column),
        square_at(row, column).wf(),
{
    assert((row * 8 + column) / 8 == row && (row * 8 + column) % 8 == column) by (nonlinear_arith)
        requires 0 <= row < 8 && 0 <= column < 8;
}

/// A pure range check, used by the move generator to discard off-board
/// offsets before a `Square` is constructed.
pub(crate) fn validate_coord(coord: &Coord) -> (r: bool)
    ensures
        r == coord_on_board(coord.row as int, coord.column as int),
{
    !(coord.column < 0 || coord.column > 7 || coord.row < 0 || coord.row > 7)
}

/// A fully-qualified move: the moving piece as it exists before the move is
/// applied (already rewritten to a queen when the move is a pawn promotion),
/// its origin square, and its destination square.
#[derive(Copy, Clone, PartialEq, Eq, Structural, Debug)]
pub struct Move {
    pub piece: ColourPiece,
    pub start: Square,
    pub end: Square,
}

impl Move {
    /// Well-formedness: both squares are genuine board squares.
    pub open spec fn wf(self) -> bool {
        self.start.wf() && self.end.wf()
    }

    /// The same move with origin and destination swapped.
    pub fn inverse(&self) -> (r: Move)
        ensures
            r == (Move { piece: self.piece, start: self.end, end: self.start }),
    {
        Move { piece: self.piece, start: self.end, end: self.start }
    }
}

/// The outcome attached to the side about to move once a move completes.
/// The colour in `Checkmate` is the player that has been mated.
#[derive(Copy, Clone, PartialEq, Eq, Structural, Debug)]
pub enum GameState {
    Playing,
    Checkmate(Colour),
    Stalemate,
}

/// Which castling options are still structurally available to one player.
/// Flags only ever go from set to cleared, never back.
#[derive(Copy, Clone, PartialEq, Eq, Structural, Debug)]
pub struct CastleRights {
    pub queen_side: bool,
    pub king_side: bool,
}

/// The full game state: the 64 squares (index 0 is bottom-left from White's
/// perspective), the side to move, and both players' castling rights.
#[derive(Copy, Clone, PartialEq, Debug)]
pub struct Board {
    pub pieces: [Space; 64],
    pub turn: Colour,
    pub white_rights: CastleRights,
    pub black_rights: CastleRights,
}

} // verus!
