//! The mathematical model of the chess rules: what the contents of a board
//! look like, which destinations each piece kind may reach, when a square is
//! threatened, when a side is in check, what applying a move does to the
//! squares, and how a finished position is classified.
//!
//! Everything here is specification code; the executable engine is proved
//! against these definitions.

use vstd::prelude::*;

use crate::{
    Board, CastleRights, CastleSide, Colour, ColourPiece, Coord, GameState, Move, Piece, Space,
    Square, coord_on_board, square_at,
};

verus! {

/// The contents of the square at `(row, column)`.
pub open spec fn space_at(sq: Seq<Space>, row: int, column: int) -> Space {
    sq[row * 8 + column]
}

/// True iff the square at `(row, column)` holds no piece.
pub open spec fn is_empty_at(sq: Seq<Space>, row: int, column: int) -> bool {
    space_at(sq, row, column) is Empty
}

/// The piece standing at `(row, column)`.
pub open spec fn piece_at(sq: Seq<Space>, row: int, column: int) -> ColourPiece
    recommends
        space_at(sq, row, column) is Full,
{
    space_at(sq, row, column)->0
}

/// True iff the square at `(row, column)` holds a piece of `colour`.
pub open spec fn holds_colour(sq: Seq<Space>, row: int, column: int, colour: Colour) -> bool {
    space_at(sq, row, column) is Full && piece_at(sq, row, column).colour == colour
}

/// The row a pawn of `colour` steps towards with each move.
pub open spec fn pawn_step(colour: Colour) -> int {
    if colour is White {
        1
    } else {
        -1
    }
}

/// The row all pawns of `colour` start the game on; a pawn may advance two
/// squares only from here.
pub open spec fn pawn_home_row(colour: Colour) -> int {
    if colour is White {
        1
    } else {
        6
    }
}

/// The opponent's back rank; a pawn of `colour` reaching it is promoted.
pub open spec fn promotion_row(colour: Colour) -> int {
    if colour is White {
        7
    } else {
        0
    }
}

/// The rank a player's pieces start on, where that player's king castles.
pub open spec fn home_row(colour: Colour) -> int {
    if colour is White {
        0
    } else {
        7
    }
}

/// A pawn's destinations: a single step towards the opponent (blocked by any
/// piece), a double step from the home row across two empty squares, or a
/// diagonal step onto an opposing piece. There is no en-passant capture.
pub open spec fn pawn_dest(
    sq: Seq<Space>,
    colour: Colour,
    sr: int,
    sc: int,
    er: int,
    ec: int,
) -> bool {
    ||| (ec == sc && er == sr + pawn_step(colour) && is_empty_at(sq, er, ec))
    ||| (ec == sc && sr == pawn_home_row(colour) && er == sr + 2 * pawn_step(colour)
        && is_empty_at(sq, sr + pawn_step(colour), sc) && is_empty_at(sq, er, ec))
    ||| ((ec == sc + 1 || ec == sc - 1) && er == sr + pawn_step(colour)
        && holds_colour(sq, er, ec, colour.opposite()))
}

/// A knight's eight L-shaped jumps.
pub open spec fn knight_jump(sr: int, sc: int, er: int, ec: int) -> bool {
    ||| (er == sr + 2 && (ec == sc + 1 || ec == sc - 1))
    ||| (er == sr - 2 && (ec == sc + 1 || ec == sc - 1))
    ||| (ec == sc + 2 && (er == sr + 1 || er == sr - 1))
    ||| (ec == sc - 2 && (er == sr + 1 || er == sr - 1))
}

/// A king's single step in any of the eight directions.
pub open spec fn king_step(sr: int, sc: int, er: int, ec: int) -> bool {
    &&& -1 <= er - sr <= 1
    &&& -1 <= ec - sc <= 1
    &&& !(er == sr && ec == sc)
}

/// A sliding piece's ray from `(r, c)` in direction `(dr, dc)`: the ray visits
/// up to `fuel` further squares, stops at the board edge and at the first
/// occupied square, and that occupied square itself is still a destination
/// (the caller separately rules out capturing one's own piece).
pub open spec fn ray_dest(
    sq: Seq<Space>,
    r: int,
    c: int,
    dr: int,
    dc: int,
    er: int,
    ec: int,
    fuel: nat,
) -> bool
    decreases fuel,
{
    if fuel == 0 {
        false
    } else {
        let nr = r + dr;
        let nc = c + dc;
        &&& coord_on_board(nr, nc)
        &&& ((er == nr && ec == nc)
            || (is_empty_at(sq, nr, nc) && ray_dest(sq, nr, nc, dr, dc, er, ec, (fuel - 1) as nat)))
    }
}

/// A rook's destinations: rays along the four orthogonal directions.
pub open spec fn rook_dest(sq: Seq<Space>, sr: int, sc: int, er: int, ec: int) -> bool {
    ||| ray_dest(sq, sr, sc, 0, 1, er, ec, 7)
    ||| ray_dest(sq, sr, sc, 0, -1, er, ec, 7)
    ||| ray_dest(sq, sr, sc, 1, 0, er, ec, 7)
    ||| ray_dest(sq, sr, sc, -1, 0, er, ec, 7)
}

/// A bishop's destinations: rays along the four diagonal directions.
pub open spec fn bishop_dest(sq: Seq<Space>, sr: int, sc: int, er: int, ec: int) -> bool {
    ||| ray_dest(sq, sr, sc, 1, 1, er, ec, 7)
    ||| ray_dest(sq, sr, sc, 1, -1, er, ec, 7)
    ||| ray_dest(sq, sr, sc, -1, 1, er, ec, 7)
    ||| ray_dest(sq, sr, sc, -1, -1, er, ec, 7)
}

/// A destination reachable by `piece` from `(sr, sc)` by its movement pattern
/// and blocking rules alone, castling excluded. This is what threat detection
/// is built from, so it must not itself depend on threat detection.
pub open spec fn plain_dest(
    sq: Seq<Space>,
    piece: ColourPiece,
    sr: int,
    sc: int,
    er: int,
    ec: int,
) -> bool {
    &&& coord_on_board(er, ec)
    &&& !(er == sr && ec == sc)
    &&& !holds_colour(sq, er, ec, piece.colour)
    &&& match piece.variant {
        Piece::Pawn => pawn_dest(sq, piece.colour, sr, sc, er, ec),
        Piece::Knight => knight_jump(sr, sc, er, ec),
        Piece::Bishop => bishop_dest(sq, sr, sc, er, ec),
        Piece::Rook => rook_dest(sq, sr, sc, er, ec),
        Piece::Queen => rook_dest(sq, sr, sc, er, ec) || bishop_dest(sq, sr, sc, er, ec),
        Piece::King => king_step(sr, sc, er, ec),
    }
}

/// True iff the piece of `by` standing at `(sr, sc)` can reach `(er, ec)`
/// by a castling-free pseudo-legal move.
pub open spec fn threatens_from(
    sq: Seq<Space>,
    by: Colour,
    sr: int,
    sc: int,
    er: int,
    ec: int,
) -> bool {
    &&& coord_on_board(sr, sc)
    &&& space_at(sq, sr, sc) is Full
    &&& piece_at(sq, sr, sc).colour == by
    &&& plain_dest(sq, piece_at(sq, sr, sc), sr, sc, er, ec)
}

/// True iff some piece of `by` has a castling-free pseudo-legal move ending
/// on `(er, ec)`.
pub open spec fn square_threatened(sq: Seq<Space>, by: Colour, er: int, ec: int) -> bool {
    exists|sr: int, sc: int| threatens_from(sq, by, sr, sc, er, ec)
}

/// A square the castling king or rook passes over: it must be empty and not
/// threatened by the opposing colour.
pub open spec fn free_and_safe(sq: Seq<Space>, colour: Colour, row: int, column: int) -> bool {
    is_empty_at(sq, row, column) && !square_threatened(sq, colour.opposite(), row, column)
}

/// The squares between king and rook (including both pieces' destinations)
/// are empty and unthreatened. The king's current square is deliberately not
/// examined: this engine does not forbid castling out of an existing check.
pub open spec fn castle_path_clear(sq: Seq<Space>, colour: Colour, side: CastleSide) -> bool {
    let hr = home_row(colour);
    match side {
        CastleSide::King => free_and_safe(sq, colour, hr, 5) && free_and_safe(sq, colour, hr, 6),
        CastleSide::Queen => free_and_safe(sq, colour, hr, 1) && free_and_safe(sq, colour, hr, 2)
            && free_and_safe(sq, colour, hr, 3),
    }
}

/// Whether `colour` still has the castling-rights flag for `side`.
pub open spec fn has_castle_right(b: Board, colour: Colour, side: CastleSide) -> bool {
    let rights = if colour is White {
        b.white_rights
    } else {
        b.black_rights
    };
    match side {
        CastleSide::King => rights.king_side,
        CastleSide::Queen => rights.queen_side,
    }
}

/// Castling is allowed when the rights flag is still set and the travelled
/// squares are free and safe.
pub open spec fn castle_allowed(b: Board, colour: Colour, side: CastleSide) -> bool {
    has_castle_right(b, colour, side) && castle_path_clear(b.pieces@, colour, side)
}

/// The column the king lands on when castling to `side`.
pub open spec fn castle_column(side: CastleSide) -> int {
    match side {
        CastleSide::King => 6,
        CastleSide::Queen => 2,
    }
}

/// A pseudo-legal destination for `piece` standing at `(sr, sc)`: either a
/// plain movement-pattern destination or, unless castling is excluded, the
/// synthetic king destination two columns towards a rook.
pub open spec fn pseudo_dest(
    b: Board,
    piece: ColourPiece,
    sr: int,
    sc: int,
    er: int,
    ec: int,
    exclude_castle: bool,
) -> bool {
    ||| plain_dest(b.pieces@, piece, sr, sc, er, ec)
    ||| (!exclude_castle && piece.variant is King && !(er == sr && ec == sc)
        && er == home_row(piece.colour)
        && ((ec == castle_column(CastleSide::King)
            && castle_allowed(b, piece.colour, CastleSide::King))
            || (ec == castle_column(CastleSide::Queen)
                && castle_allowed(b, piece.colour, CastleSide::Queen))))
}

/// There is a piece of `colour` at `(sr, sc)` with `(er, ec)` among its
/// pseudo-legal destinations.
pub open spec fn board_move_ok(
    b: Board,
    colour: Colour,
    sr: int,
    sc: int,
    er: int,
    ec: int,
    exclude_castle: bool,
) -> bool {
    &&& coord_on_board(sr, sc)
    &&& space_at(b.pieces@, sr, sc) is Full
    &&& piece_at(b.pieces@, sr, sc).colour == colour
    &&& pseudo_dest(b, piece_at(b.pieces@, sr, sc), sr, sc, er, ec, exclude_castle)
}

/// The move from `(sr, sc)` to `(er, ec)` carrying the piece that actually
/// stands on the origin square.
pub open spec fn board_move_at(b: Board, sr: int, sc: int, er: int, ec: int) -> Move {
    Move {
        piece: piece_at(b.pieces@, sr, sc),
        start: square_at(sr, sc),
        end: square_at(er, ec),
    }
}

/// A king move of exactly two columns out of column four; applying such a
/// move also relocates the corresponding rook.
pub open spec fn is_castle_shape(m: Move) -> bool {
    m.piece.variant is King && m.start.coord.column == 4 && (m.end.coord.column == 2
        || m.end.coord.column == 6)
}

/// The squares after a move is applied raw, with no legality checking: the
/// piece recorded in the move lands on the destination, the origin empties,
/// and a castle-shaped king move drags the rook to its post-castle square.
pub open spec fn apply_move_squares(sq: Seq<Space>, m: Move) -> Seq<Space> {
    let s1 = sq.update(m.end.index as int, Space::Full(m.piece)).update(
        m.start.index as int,
        Space::Empty,
    );
    if is_castle_shape(m) {
        let row = m.end.coord.row as int;
        if m.end.coord.column == 6 {
            s1.update(row * 8 + 5, s1[row * 8 + 7]).update(row * 8 + 7, Space::Empty)
        } else {
            s1.update(row * 8 + 3, s1[row * 8 + 0]).update(row * 8 + 0, Space::Empty)
        }
    } else {
        s1
    }
}

/// The linear index of the first square holding a king of `colour`, scanning
/// upward from `i`.
pub open spec fn king_scan(sq: Seq<Space>, colour: Colour, i: int) -> Option<int>
    decreases 64 - i,
{
    if i < 0 || i >= 64 {
        None
    } else if sq[i] matches Space::Full(p) && p.variant is King && p.colour == colour {
        Some(i)
    } else {
        king_scan(sq, colour, i + 1)
    }
}

/// The square of the first king of `colour` found in scan order, if any.
pub open spec fn king_square(sq: Seq<Space>, colour: Colour) -> Option<Square> {
    match king_scan(sq, colour, 0) {
        Some(i) => Some(crate::square_of_index(i)),
        None => None,
    }
}

/// Which colour, if any, is reported in check: the side to move is in check
/// iff its king's square is threatened by the opponent. A position missing
/// either king (possible mid-simulation, when a capture of the king is being
/// examined) reports no check.
pub open spec fn check_state(sq: Seq<Space>, turn: Colour) -> Option<Colour> {
    match (king_scan(sq, Colour::White, 0), king_scan(sq, Colour::Black, 0)) {
        (Some(wk), Some(bk)) => {
            if turn is White && square_threatened(sq, Colour::Black, wk / 8, wk % 8) {
                Some(Colour::White)
            } else if turn is Black && square_threatened(sq, Colour::White, bk / 8, bk % 8) {
                Some(Colour::Black)
            } else {
                None
            }
        },
        _ => None,
    }
}

/// The move as `move_piece` executes it: a pawn arriving on the opponent's
/// back rank is rewritten to a queen of the same colour before anything else
/// happens.
pub open spec fn promoted_move(m: Move) -> Move {
    if m.piece.variant is Pawn && m.end.coord.row == promotion_row(m.piece.colour) {
        Move {
            piece: ColourPiece { variant: Piece::Queen, colour: m.piece.colour },
            start: m.start,
            end: m.end,
        }
    } else {
        m
    }
}

/// `colour`'s castling rights after the mover (the side to move) has played
/// `m`: moving the king clears both of the mover's flags, moving a rook off
/// its original corner clears that corner's flag. The opponent's rights are
/// untouched.
pub open spec fn rights_after(b: Board, m: Move, colour: Colour) -> CastleRights {
    let r = if colour is White {
        b.white_rights
    } else {
        b.black_rights
    };
    if b.turn == colour {
        if m.piece.variant is King {
            CastleRights { queen_side: false, king_side: false }
        } else if m.piece.variant is Rook && m.start.coord.row == home_row(colour)
            && m.start.coord.column == 0 {
            CastleRights { queen_side: false, king_side: r.king_side }
        } else if m.piece.variant is Rook && m.start.coord.row == home_row(colour)
            && m.start.coord.column == 7 {
            CastleRights { queen_side: r.queen_side, king_side: false }
        } else {
            r
        }
    } else {
        r
    }
}

/// The move obeys the moving piece's movement pattern and blocking rules on
/// this board (the first thing `move_piece` checks).
pub open spec fn valid_move(b: Board, m: Move) -> bool {
    pseudo_dest(
        b,
        m.piece,
        m.start.coord.row as int,
        m.start.coord.column as int,
        m.end.coord.row as int,
        m.end.coord.column as int,
        false,
    )
}

/// All three of `move_piece`'s checks pass: the move is pseudo-legal, it is
/// the moving piece's turn, and after the (possibly promoted) move is applied
/// the mover's own king is not left in check.
pub open spec fn move_allowed(b: Board, m: Move) -> bool {
    &&& valid_move(b, m)
    &&& m.piece.colour == b.turn
    &&& check_state(apply_move_squares(b.pieces@, promoted_move(m)), b.turn) is None
}

/// The side to move has a fully legal move from `(sr, sc)` to `(er, ec)`:
/// pseudo-legal, and simulating it does not leave that side in check.
pub open spec fn safe_move_from(b: Board, sr: int, sc: int, er: int, ec: int) -> bool {
    &&& board_move_ok(b, b.turn, sr, sc, er, ec, false)
    &&& check_state(apply_move_squares(b.pieces@, board_move_at(b, sr, sc, er, ec)), b.turn)
        is None
}

/// The side to move still has at least one fully legal move.
pub open spec fn safe_move_exists(b: Board) -> bool {
    exists|sr: int, sc: int, er: int, ec: int| safe_move_from(b, sr, sc, er, ec)
}

/// How the position is classified for the side to move: no fully legal move
/// while in check is checkmate, no fully legal move otherwise is stalemate,
/// and in every other position play continues.
pub open spec fn end_state(b: Board) -> GameState {
    if safe_move_exists(b) {
        GameState::Playing
    } else if check_state(b.pieces@, b.turn) is Some {
        GameState::Checkmate(b.turn)
    } else {
        GameState::Stalemate
    }
}

/// The exact contract of a generated per-piece move list: every entry is a
/// pseudo-legal move of `piece` out of `(sr, sc)`, and every pseudo-legal
/// destination appears.
pub open spec fn moves_exact_from(
    b: Board,
    piece: ColourPiece,
    sr: int,
    sc: int,
    exclude_castle: bool,
    ms: Seq<Move>,
) -> bool {
    &&& forall|i: int|
        0 <= i < ms.len() ==> {
            let m = #[trigger] ms[i];
            &&& m.piece == piece
            &&& m.start == square_at(sr, sc)
            &&& m.end.wf()
            &&& pseudo_dest(
                b,
                piece,
                sr,
                sc,
                m.end.coord.row as int,
                m.end.coord.column as int,
                exclude_castle,
            )
        }
    &&& forall|er: int, ec: int|
        #[trigger] pseudo_dest(b, piece, sr, sc, er, ec, exclude_castle) ==> ms.contains(
            Move { piece, start: square_at(sr, sc), end: square_at(er, ec) },
        )
}

/// A raw castle target, before the final filter drops the origin square: the
/// travelled squares are free and safe and the rights flag is set. (Whether
/// a king actually stands on the origin square is never examined.)
pub open spec fn castle_raw(b: Board, colour: Colour, er: int, ec: int) -> bool {
    &&& er == home_row(colour)
    &&& ((ec == castle_column(CastleSide::King) && castle_allowed(b, colour, CastleSide::King))
        || (ec == castle_column(CastleSide::Queen) && castle_allowed(
            b,
            colour,
            CastleSide::Queen,
        )))
}

/// What the raw per-piece generator may emit before the caller's filter: a
/// plain destination, or a raw castle target for a king.
pub open spec fn raw_dest(
    b: Board,
    piece: ColourPiece,
    sr: int,
    sc: int,
    er: int,
    ec: int,
    exclude_castle: bool,
) -> bool {
    ||| plain_dest(b.pieces@, piece, sr, sc, er, ec)
    ||| (!exclude_castle && piece.variant is King && castle_raw(b, piece.colour, er, ec))
}

/// The contract of the raw per-piece destination list: every entry is a raw
/// destination, and every pseudo-legal destination appears.
pub open spec fn coords_raw_exact(
    b: Board,
    piece: ColourPiece,
    sr: int,
    sc: int,
    exclude_castle: bool,
    cs: Seq<Coord>,
) -> bool {
    &&& forall|i: int|
        0 <= i < cs.len() ==> raw_dest(
            b,
            piece,
            sr,
            sc,
            (#[trigger] cs[i]).row as int,
            cs[i].column as int,
            exclude_castle,
        )
    &&& forall|er: int, ec: int|
        #[trigger] pseudo_dest(b, piece, sr, sc, er, ec, exclude_castle) ==> cs.contains(
            Coord { row: er as i32, column: ec as i32 },
        )
}

/// The contract of a per-piece destination list with no castling and no raw
/// entries: exactly the plain destinations.
pub open spec fn plain_coords_exact(
    sq: Seq<Space>,
    piece: ColourPiece,
    sr: int,
    sc: int,
    cs: Seq<Coord>,
) -> bool {
    &&& forall|i: int|
        0 <= i < cs.len() ==> plain_dest(
            sq,
            piece,
            sr,
            sc,
            (#[trigger] cs[i]).row as int,
            cs[i].column as int,
        )
    &&& forall|er: int, ec: int|
        #[trigger] plain_dest(sq, piece, sr, sc, er, ec) ==> cs.contains(
            Coord { row: er as i32, column: ec as i32 },
        )
}

/// The exact contract of the whole-board move list for `colour`: every entry
/// carries the piece actually standing on its origin square, and every
/// pseudo-legal move of that colour appears.
pub open spec fn all_moves_exact(
    b: Board,
    colour: Colour,
    exclude_castle: bool,
    ms: Seq<Move>,
) -> bool {
    &&& forall|i: int|
        0 <= i < ms.len() ==> {
            let m = #[trigger] ms[i];
            &&& m.wf()
            &&& m.piece == piece_at(
                b.pieces@,
                m.start.coord.row as int,
                m.start.coord.column as int,
            )
            &&& board_move_ok(
                b,
                colour,
                m.start.coord.row as int,
                m.start.coord.column as int,
                m.end.coord.row as int,
                m.end.coord.column as int,
                exclude_castle,
            )
        }
    &&& forall|sr: int, sc: int, er: int, ec: int|
        #[trigger] board_move_ok(b, colour, sr, sc, er, ec, exclude_castle) ==> ms.contains(
            board_move_at(b, sr, sc, er, ec),
        )
}

/// What `piece_at_coord` reports: the piece standing at the coordinate, or
/// nothing when the coordinate is off the board or the square is empty.
pub open spec fn piece_option_at(sq: Seq<Space>, row: int, column: int) -> Option<ColourPiece> {
    if coord_on_board(row, column) && space_at(sq, row, column) is Full {
        Some(piece_at(sq, row, column))
    } else {
        None
    }
}

/// The square with linear index `i` holds a piece of the same kind and
/// colour as `piece` whose pseudo-legal moves include `(er, ec)`; such
/// squares are the candidate origins when notation names only a target.
pub open spec fn origin_matches(b: Board, piece: ColourPiece, er: int, ec: int, i: int) -> bool {
    &&& 0 <= i < 64
    &&& b.pieces@[i] matches Space::Full(p)
    &&& p.variant == piece.variant
    &&& p.colour == piece.colour
    &&& pseudo_dest(b, p, i / 8, i % 8, er, ec, false)
}

/// Termination measure of the mutually recursive generator: computing
/// castling targets consults threat detection, which in turn runs the
/// generator with castling excluded, so the castling-free phase is strictly
/// below the full one.
pub open spec fn gen_depth(exclude_castle: bool) -> int {
    if exclude_castle {
        0
    } else {
        1
    }
}

/// The same measure per piece: only a king's move generation can reach the
/// castling machinery.
pub open spec fn piece_gen_depth(piece: ColourPiece, exclude_castle: bool) -> int {
    if exclude_castle || !(piece.variant is King) {
        0
    } else {
        1
    }
}

/// The board contents every game starts from.
pub open spec fn start_space(i: int) -> Space {
    let r = i / 8;
    let c = i % 8;
    if r == 0 {
        Space::Full(ColourPiece { variant: back_rank_kind(c), colour: Colour::White })
    } else if r == 1 {
        Space::Full(ColourPiece { variant: Piece::Pawn, colour: Colour::White })
    } else if r == 6 {
        Space::Full(ColourPiece { variant: Piece::Pawn, colour: Colour::Black })
    } else if r == 7 {
        Space::Full(ColourPiece { variant: back_rank_kind(c), colour: Colour::Black })
    } else {
        Space::Empty
    }
}

/// The piece kind standing on column `c` of each back rank at the start.
pub open spec fn back_rank_kind(c: int) -> Piece {
    if c == 0 || c == 7 {
        Piece::Rook
    } else if c == 1 || c == 6 {
        Piece::Knight
    } else if c == 2 || c == 5 {
        Piece::Bishop
    } else if c == 3 {
        Piece::Queen
    } else {
        Piece::King
    }
}

} // verus!
