//! The per-piece pseudo-legal move generator: raw target coordinates for a
//! piece standing on a given square, including sliding-piece ray blocking and
//! the synthetic castling destinations of a king.
//!
//! Each generator is proved to produce exactly the destination set that the
//! rules model defines for its piece kind.

use vstd::prelude::*;

use crate::rules::{
    bishop_dest, coords_raw_exact, gen_depth, holds_colour, is_empty_at, piece_gen_depth,
    plain_coords_exact, plain_dest, pseudo_dest, raw_dest, ray_dest,
};
use crate::util::{lemma_contains_in_concat, lemma_contains_in_extension, lemma_push_contains};
use crate::{
    Board, CastleSide, Colour, ColourPiece, Coord, Piece, Space, coord_on_board, validate_coord,
};

verus! {

broadcast use crate::util::lemma_push_contains;

/// Whether the on-board square at `(row, column)` is empty.
fn space_empty_at(board: &Board, row: i32, column: i32) -> (r: bool)
    requires
        coord_on_board(row as int, column as int),
    ensures
        r == is_empty_at(board.pieces@, row as int, column as int),
{
    matches!(board.pieces[(row * 8 + column) as usize], Space::Empty)
}

/// Whether the on-board square at `(row, column)` holds an opposing piece.
fn space_enemy_at(board: &Board, row: i32, column: i32, colour: Colour) -> (r: bool)
    requires
        coord_on_board(row as int, column as int),
    ensures
        r == holds_colour(board.pieces@, row as int, column as int, colour.opposite()),
{
    match board.pieces[(row * 8 + column) as usize] {
        Space::Full(p) => !(p.colour == colour),
        Space::Empty => false,
    }
}

/// Push `(row, column)` as a single-step destination if it is on the board
/// and does not hold a piece of the mover's own colour.
fn step_push(board: &Board, colour: Colour, row: i32, column: i32, moves: &mut Vec<Coord>)
    requires
        -3 <= row <= 10,
        -3 <= column <= 10,
    ensures
        coord_on_board(row as int, column as int) && !holds_colour(
            board.pieces@,
            row as int,
            column as int,
            colour,
        ) ==> final(moves)@ == old(moves)@.push(Coord { row, column }),
        !(coord_on_board(row as int, column as int) && !holds_colour(
            board.pieces@,
            row as int,
            column as int,
            colour,
        )) ==> final(moves)@ == old(moves)@,
        final(moves)@.len() >= old(moves)@.len(),
        forall|i: int| 0 <= i < old(moves)@.len() ==> final(moves)@[i] == old(moves)@[i],
{
    let target = Coord { row, column };
    if validate_coord(&target) {
        let keep = match board.pieces[(row * 8 + column) as usize] {
            Space::Full(p) => !(p.colour == colour),
            Space::Empty => true,
        };
        if keep {
            moves.push(target);
        }
    }
}

/// Walk a sliding piece's ray one square at a time, pushing every reachable
/// empty square and, when the ray hits an opposing piece, that square too;
/// a piece of the mover's own colour stops the ray without being pushed.
fn ray_walk(
    board: &Board,
    colour: Colour,
    row: i32,
    column: i32,
    dr: i32,
    dc: i32,
    fuel: u32,
    moves: &mut Vec<Coord>,
)
    requires
        coord_on_board(row as int, column as int),
        -1 <= dr <= 1,
        -1 <= dc <= 1,
        !(dr == 0 && dc == 0),
        fuel <= 7,
    ensures
        final(moves)@.len() >= old(moves)@.len(),
        forall|i: int| 0 <= i < old(moves)@.len() ==> final(moves)@[i] == old(moves)@[i],
        forall|i: int|
            old(moves)@.len() <= i < final(moves)@.len() ==> {
                let co = #[trigger] final(moves)@[i];
                &&& ray_dest(
                    board.pieces@,
                    row as int,
                    column as int,
                    dr as int,
                    dc as int,
                    co.row as int,
                    co.column as int,
                    fuel as nat,
                )
                &&& !holds_colour(board.pieces@, co.row as int, co.column as int, colour)
            },
        forall|er: int, ec: int|
            #[trigger] ray_dest(
                board.pieces@,
                row as int,
                column as int,
                dr as int,
                dc as int,
                er,
                ec,
                fuel as nat,
            ) && !holds_colour(board.pieces@, er, ec, colour) ==> final(moves)@.contains(
                Coord { row: er as i32, column: ec as i32 },
            ),
    decreases fuel,
{
    if fuel == 0 {
        return ;
    }
    let nr = row + dr;
    let nc = column + dc;
    let next = Coord { row: nr, column: nc };
    if !validate_coord(&next) {
        return ;
    }
    match board.pieces[(nr * 8 + nc) as usize] {
        Space::Empty => {
            moves.push(next);
            let ghost mid = moves@;
            ray_walk(board, colour, nr, nc, dr, dc, fuel - 1, moves);
            proof {
                assert forall|er: int, ec: int|
                    #[trigger] ray_dest(
                        board.pieces@,
                        row as int,
                        column as int,
                        dr as int,
                        dc as int,
                        er,
                        ec,
                        fuel as nat,
                    ) && !holds_colour(board.pieces@, er, ec, colour) implies moves@.contains(
                    Coord { row: er as i32, column: ec as i32 },
                ) by {
                    if er == nr as int && ec == nc as int {
                        assert(mid.contains(Coord { row: er as i32, column: ec as i32 }));
                        lemma_contains_in_extension(
                            mid,
                            moves@,
                            Coord { row: er as i32, column: ec as i32 },
                        );
                    } else {
                        assert(ray_dest(
                            board.pieces@,
                            nr as int,
                            nc as int,
                            dr as int,
                            dc as int,
                            er,
                            ec,
                            (fuel - 1) as nat,
                        ));
                    }
                }
                assert forall|i: int|
                    old(moves)@.len() <= i < moves@.len() implies {
                        let co = #[trigger] moves@[i];
                        &&& ray_dest(
                            board.pieces@,
                            row as int,
                            column as int,
                            dr as int,
                            dc as int,
                            co.row as int,
                            co.column as int,
                            fuel as nat,
                        )
                        &&& !holds_colour(board.pieces@, co.row as int, co.column as int, colour)
                    } by {
                    let co = moves@[i];
                    if i >= mid.len() {
                        assert(ray_dest(
                            board.pieces@,
                            nr as int,
                            nc as int,
                            dr as int,
                            dc as int,
                            co.row as int,
                            co.column as int,
                            (fuel - 1) as nat,
                        ));
                    } else {
                        assert(co == next);
                    }
                }
            }
        },
        Space::Full(p) => {
            if !(p.colour == colour) {
                moves.push(next);
            }
        },
    }
}

/// Every ray destination lies on the board, strictly beyond the origin in
/// the ray's direction.
proof fn lemma_ray_props(
    sq: Seq<Space>,
    r: int,
    c: int,
    dr: int,
    dc: int,
    er: int,
    ec: int,
    fuel: nat,
)
    requires
        ray_dest(sq, r, c, dr, dc, er, ec, fuel),
        -1 <= dr <= 1,
        -1 <= dc <= 1,
        !(dr == 0 && dc == 0),
    ensures
        coord_on_board(er, ec),
        dr == 1 ==> er > r,
        dr == -1 ==> er < r,
        dr == 0 ==> er == r,
        dc == 1 ==> ec > c,
        dc == -1 ==> ec < c,
        dc == 0 ==> ec == c,
    decreases fuel,
{
    let nr = r + dr;
    let nc = c + dc;
    if !(er == nr && ec == nc) {
        lemma_ray_props(sq, nr, nc, dr, dc, er, ec, (fuel - 1) as nat);
    }
}

/// A pawn's raw destinations: forward steps blocked by any piece, and
/// diagonal steps onto an opposing piece only.
pub(crate) fn pawn_moves(colour: &Colour, coord: &Coord, board: &Board) -> (r: Vec<Coord>)
    requires
        coord_on_board(coord.row as int, coord.column as int),
    ensures
        plain_coords_exact(
            board.pieces@,
            ColourPiece { variant: Piece::Pawn, colour: *colour },
            coord.row as int,
            coord.column as int,
            r@,
        ),
{
    let row = coord.row;
    let column = coord.column;
    let ghost sq = board.pieces@;
    let ghost piece = ColourPiece { variant: Piece::Pawn, colour: *colour };
    let step: i32 = match colour {
        Colour::White => 1,
        Colour::Black => -1,
    };
    let home: i32 = match colour {
        Colour::White => 1,
        Colour::Black => 6,
    };
    let mut moves: Vec<Coord> = Vec::new();

    let one = Coord { row: row + step, column };
    if validate_coord(&one) && space_empty_at(board, one.row, one.column) {
        moves.push(one);
        let two = Coord { row: row + 2 * step, column };
        if row == home && validate_coord(&two) && space_empty_at(board, two.row, two.column) {
            moves.push(two);
        }
    }
    let east = Coord { row: row + step, column: column + 1 };
    if validate_coord(&east) && space_enemy_at(board, east.row, east.column, *colour) {
        moves.push(east);
    }
    let west = Coord { row: row + step, column: column - 1 };
    if validate_coord(&west) && space_enemy_at(board, west.row, west.column, *colour) {
        moves.push(west);
    }
    moves
}

/// A knight's raw destinations: the eight L-shaped jumps, individually
/// filtered for the board edge and the mover's own pieces.
pub(crate) fn knight_moves(coord: &Coord, colour: &Colour, board: &Board) -> (r: Vec<Coord>)
    requires
        coord_on_board(coord.row as int, coord.column as int),
    ensures
        plain_coords_exact(
            board.pieces@,
            ColourPiece { variant: Piece::Knight, colour: *colour },
            coord.row as int,
            coord.column as int,
            r@,
        ),
{
    let row = coord.row;
    let column = coord.column;
    let ghost sq = board.pieces@;
    let ghost piece = ColourPiece { variant: Piece::Knight, colour: *colour };
    let mut moves: Vec<Coord> = Vec::new();
    step_push(board, *colour, row + 2, column + 1, &mut moves);
    proof {
        assert(sound_step_set(sq, piece, row as int, column as int, moves@));
    }
    let ghost g1 = moves@;
    step_push(board, *colour, row + 2, column - 1, &mut moves);
    proof {
        assert(sound_step_set(sq, piece, row as int, column as int, moves@));
    }
    let ghost g2 = moves@;
    step_push(board, *colour, row + 1, column + 2, &mut moves);
    proof {
        assert(sound_step_set(sq, piece, row as int, column as int, moves@));
    }
    let ghost g3 = moves@;
    step_push(board, *colour, row + 1, column - 2, &mut moves);
    proof {
        assert(sound_step_set(sq, piece, row as int, column as int, moves@));
    }
    let ghost g4 = moves@;
    step_push(board, *colour, row - 1, column + 2, &mut moves);
    proof {
        assert(sound_step_set(sq, piece, row as int, column as int, moves@));
    }
    let ghost g5 = moves@;
    step_push(board, *colour, row - 1, column - 2, &mut moves);
    proof {
        assert(sound_step_set(sq, piece, row as int, column as int, moves@));
    }
    let ghost g6 = moves@;
    step_push(board, *colour, row - 2, column + 1, &mut moves);
    proof {
        assert(sound_step_set(sq, piece, row as int, column as int, moves@));
    }
    let ghost g7 = moves@;
    step_push(board, *colour, row - 2, column - 1, &mut moves);
    proof {
        assert(sound_step_set(sq, piece, row as int, column as int, moves@));
        assert forall|er: int, ec: int| #[trigger] plain_dest(
            sq,
            piece,
            row as int,
            column as int,
            er,
            ec,
        ) implies moves@.contains(Coord { row: er as i32, column: ec as i32 }) by {
            let target = Coord { row: er as i32, column: ec as i32 };
            let sr = row as int;
            let sc = column as int;
            if er == sr + 2 && ec == sc + 1 {
                lemma_contains_in_extension(g1, moves@, target);
            } else if er == sr + 2 && ec == sc - 1 {
                lemma_contains_in_extension(g2, moves@, target);
            } else if er == sr + 1 && ec == sc + 2 {
                lemma_contains_in_extension(g3, moves@, target);
            } else if er == sr + 1 && ec == sc - 2 {
                lemma_contains_in_extension(g4, moves@, target);
            } else if er == sr - 1 && ec == sc + 2 {
                lemma_contains_in_extension(g5, moves@, target);
            } else if er == sr - 1 && ec == sc - 2 {
                lemma_contains_in_extension(g6, moves@, target);
            } else if er == sr - 2 && ec == sc + 1 {
                lemma_contains_in_extension(g7, moves@, target);
            }
        }
    }
    moves
}

/// A king's raw destinations: single steps in the eight directions, plus,
/// unless castling is excluded, the synthetic two-column castle targets that
/// `can_castle` permits.
#[verifier::rlimit(60)]
pub(crate) fn king_moves(
    coord: &Coord,
    colour: &Colour,
    board: &Board,
    exclude_castle: bool,
) -> (r: Vec<Coord>)
    requires
        coord_on_board(coord.row as int, coord.column as int),
    ensures
        coords_raw_exact(
            *board,
            ColourPiece { variant: Piece::King, colour: *colour },
            coord.row as int,
            coord.column as int,
            exclude_castle,
            r@,
        ),
    decreases gen_depth(exclude_castle), 6int,
{
    let row = coord.row;
    let column = coord.column;
    let ghost sq = board.pieces@;
    let ghost piece = ColourPiece { variant: Piece::King, colour: *colour };
    let mut moves: Vec<Coord> = Vec::new();
    step_push(board, *colour, row + 1, column - 1, &mut moves);
    proof {
        assert(sound_step_set(sq, piece, row as int, column as int, moves@));
    }
    let ghost g1 = moves@;
    step_push(board, *colour, row + 1, column, &mut moves);
    proof {
        assert(sound_step_set(sq, piece, row as int, column as int, moves@));
    }
    let ghost g2 = moves@;
    step_push(board, *colour, row + 1, column + 1, &mut moves);
    proof {
        assert(sound_step_set(sq, piece, row as int, column as int, moves@));
    }
    let ghost g3 = moves@;
    step_push(board, *colour, row, column - 1, &mut moves);
    proof {
        assert(sound_step_set(sq, piece, row as int, column as int, moves@));
    }
    let ghost g4 = moves@;
    step_push(board, *colour, row, column + 1, &mut moves);
    proof {
        assert(sound_step_set(sq, piece, row as int, column as int, moves@));
    }
    let ghost g5 = moves@;
    step_push(board, *colour, row - 1, column - 1, &mut moves);
    proof {
        assert(sound_step_set(sq, piece, row as int, column as int, moves@));
    }
    let ghost g6 = moves@;
    step_push(board, *colour, row - 1, column, &mut moves);
    proof {
        assert(sound_step_set(sq, piece, row as int, column as int, moves@));
    }
    let ghost g7 = moves@;
    step_push(board, *colour, row - 1, column + 1, &mut moves);
    proof {
        assert(sound_step_set(sq, piece, row as int, column as int, moves@));
    }
    let ghost g8 = moves@;
    if !exclude_castle {
        let home: i32 = match colour {
            Colour::White => 0,
            Colour::Black => 7,
        };
        if board.can_castle(colour, CastleSide::King) {
            moves.push(Coord { row: home, column: 6 });
        }
        if board.can_castle(colour, CastleSide::Queen) {
            moves.push(Coord { row: home, column: 2 });
        }
    }
    proof {
        assert forall|i: int| 0 <= i < moves@.len() implies raw_dest(
            *board,
            piece,
            row as int,
            column as int,
            (#[trigger] moves@[i]).row as int,
            moves@[i].column as int,
            exclude_castle,
        ) by {
            if i < g8.len() {
                assert(moves@[i] == g8[i]);
                assert(plain_dest(
                    sq,
                    piece,
                    row as int,
                    column as int,
                    g8[i].row as int,
                    g8[i].column as int,
                ));
            }
        }
        assert forall|er: int, ec: int| #[trigger] pseudo_dest(
            *board,
            piece,
            row as int,
            column as int,
            er,
            ec,
            exclude_castle,
        ) implies moves@.contains(Coord { row: er as i32, column: ec as i32 }) by {
            let target = Coord { row: er as i32, column: ec as i32 };
            let sr = row as int;
            let sc = column as int;
            if plain_dest(sq, piece, sr, sc, er, ec) {
                if er == sr + 1 && ec == sc - 1 {
                    lemma_contains_in_extension(g1, moves@, target);
                } else if er == sr + 1 && ec == sc {
                    lemma_contains_in_extension(g2, moves@, target);
                } else if er == sr + 1 && ec == sc + 1 {
                    lemma_contains_in_extension(g3, moves@, target);
                } else if er == sr && ec == sc - 1 {
                    lemma_contains_in_extension(g4, moves@, target);
                } else if er == sr && ec == sc + 1 {
                    lemma_contains_in_extension(g5, moves@, target);
                } else if er == sr - 1 && ec == sc - 1 {
                    lemma_contains_in_extension(g6, moves@, target);
                } else if er == sr - 1 && ec == sc {
                    lemma_contains_in_extension(g7, moves@, target);
                } else if er == sr - 1 && ec == sc + 1 {
                    lemma_contains_in_extension(g8, moves@, target);
                }
            }
        }
    }
    moves
}

/// The raw moveset of a piece standing on `coord`: dispatches to the
/// generator for the piece's kind; a queen is the union of the rook and
/// bishop rays. Only a king's generator looks at `exclude_castle`.
pub fn piece_moveset(
    piece: ColourPiece,
    board: &Board,
    coord: &Coord,
    exclude_castle: bool,
) -> (r: Vec<Coord>)
    requires
        coord_on_board(coord.row as int, coord.column as int),
    ensures
        coords_raw_exact(
            *board,
            piece,
            coord.row as int,
            coord.column as int,
            exclude_castle,
            r@,
        ),
    decreases piece_gen_depth(piece, exclude_castle), 7int,
{
    let ghost sq = board.pieces@;
    let ghost sr = coord.row as int;
    let ghost sc = coord.column as int;
    match piece.variant {
        Piece::Pawn => {
            let r = pawn_moves(&piece.colour, coord, board);
            proof {
                assert(piece == ColourPiece { variant: Piece::Pawn, colour: piece.colour });
            }
            r
        },
        Piece::Knight => {
            let r = knight_moves(coord, &piece.colour, board);
            proof {
                assert(piece == ColourPiece { variant: Piece::Knight, colour: piece.colour });
            }
            r
        },
        Piece::Bishop => {
            let r = bishop_moves(coord, &piece.colour, board);
            proof {
                assert(piece == ColourPiece { variant: Piece::Bishop, colour: piece.colour });
            }
            r
        },
        Piece::Rook => {
            let r = rook_moves(coord, &piece.colour, board);
            proof {
                assert(piece == ColourPiece { variant: Piece::Rook, colour: piece.colour });
            }
            r
        },
        Piece::Queen => {
            let mut r = bishop_moves(coord, &piece.colour, board);
            let mut rooks = rook_moves(coord, &piece.colour, board);
            let ghost gb = r@;
            let ghost gr = rooks@;
            r.append(&mut rooks);
            proof {
                let ghost bishop_piece = ColourPiece { variant: Piece::Bishop, colour: piece.colour };
                let ghost rook_piece = ColourPiece { variant: Piece::Rook, colour: piece.colour };
                assert(r@ == gb + gr);
                assert forall|i: int| 0 <= i < r@.len() implies raw_dest(
                    *board,
                    piece,
                    sr,
                    sc,
                    (#[trigger] r@[i]).row as int,
                    r@[i].column as int,
                    exclude_castle,
                ) by {
                    if i < gb.len() {
                        assert(r@[i] == gb[i]);
                        assert(plain_dest(sq, bishop_piece, sr, sc, gb[i].row as int, gb[i].column as int));
                    } else {
                        assert(r@[i] == gr[i - gb.len()]);
                        assert(plain_dest(
                            sq,
                            rook_piece,
                            sr,
                            sc,
                            gr[i - gb.len()].row as int,
                            gr[i - gb.len()].column as int,
                        ));
                    }
                }
                assert forall|er: int, ec: int| #[trigger] pseudo_dest(
                    *board,
                    piece,
                    sr,
                    sc,
                    er,
                    ec,
                    exclude_castle,
                ) implies r@.contains(Coord { row: er as i32, column: ec as i32 }) by {
                    let target = Coord { row: er as i32, column: ec as i32 };
                    if bishop_dest(sq, sr, sc, er, ec) {
                        assert(plain_dest(sq, bishop_piece, sr, sc, er, ec));
                        lemma_contains_in_concat(gb, gr, target);
                    } else {
                        assert(plain_dest(sq, rook_piece, sr, sc, er, ec));
                        lemma_contains_in_concat(gb, gr, target);
                    }
                }
            }
            r
        },
        Piece::King => king_moves(coord, &piece.colour, board, exclude_castle),
    }
}

/// Every entry of a single-step destination list obeys the stepping piece's
/// movement pattern and the board filters.
pub(crate) open spec fn sound_step_set(
    sq: Seq<Space>,
    piece: ColourPiece,
    sr: int,
    sc: int,
    cs: Seq<Coord>,
) -> bool {
    forall|i: int|
        0 <= i < cs.len() ==> plain_dest(
            sq,
            piece,
            sr,
            sc,
            (#[trigger] cs[i]).row as int,
            cs[i].column as int,
        )
}

/// A bishop's raw destinations: rays along the four diagonals.
pub(crate) fn bishop_moves(coord: &Coord, colour: &Colour, board: &Board) -> (r: Vec<Coord>)
    requires
        coord_on_board(coord.row as int, coord.column as int),
    ensures
        plain_coords_exact(
            board.pieces@,
            ColourPiece { variant: Piece::Bishop, colour: *colour },
            coord.row as int,
            coord.column as int,
            r@,
        ),
{
    let row = coord.row;
    let column = coord.column;
    let ghost sq = board.pieces@;
    let ghost piece = ColourPiece { variant: Piece::Bishop, colour: *colour };
    let mut moves: Vec<Coord> = Vec::new();
    ray_walk(board, *colour, row, column, 1, 1, 7, &mut moves);
    let ghost m1 = moves@;
    ray_walk(board, *colour, row, column, 1, -1, 7, &mut moves);
    let ghost m2 = moves@;
    ray_walk(board, *colour, row, column, -1, 1, 7, &mut moves);
    let ghost m3 = moves@;
    ray_walk(board, *colour, row, column, -1, -1, 7, &mut moves);
    proof {
        assert forall|i: int| 0 <= i < moves@.len() implies plain_dest(
            sq,
            piece,
            row as int,
            column as int,
            (#[trigger] moves@[i]).row as int,
            moves@[i].column as int,
        ) by {
            let co = moves@[i];
            if i < m1.len() {
                lemma_ray_props(sq, row as int, column as int, 1, 1, co.row as int, co.column as int, 7);
            } else if i < m2.len() {
                lemma_ray_props(sq, row as int, column as int, 1, -1, co.row as int, co.column as int, 7);
            } else if i < m3.len() {
                lemma_ray_props(sq, row as int, column as int, -1, 1, co.row as int, co.column as int, 7);
            } else {
                lemma_ray_props(sq, row as int, column as int, -1, -1, co.row as int, co.column as int, 7);
            }
        }
        assert forall|er: int, ec: int| #[trigger] plain_dest(
            sq,
            piece,
            row as int,
            column as int,
            er,
            ec,
        ) implies moves@.contains(Coord { row: er as i32, column: ec as i32 }) by {
            let target = Coord { row: er as i32, column: ec as i32 };
            if ray_dest(sq, row as int, column as int, 1, 1, er, ec, 7) {
                lemma_contains_in_extension(m1, moves@, target);
            } else if ray_dest(sq, row as int, column as int, 1, -1, er, ec, 7) {
                lemma_contains_in_extension(m2, moves@, target);
            } else if ray_dest(sq, row as int, column as int, -1, 1, er, ec, 7) {
                lemma_contains_in_extension(m3, moves@, target);
            }
        }
    }
    moves
}

/// A rook's raw destinations: rays along the four orthogonal directions.
pub(crate) fn rook_moves(coord: &Coord, colour: &Colour, board: &Board) -> (r: Vec<Coord>)
    requires
        coord_on_board(coord.row as int, coord.column as int),
    ensures
        plain_coords_exact(
            board.pieces@,
            ColourPiece { variant: Piece::Rook, colour: *colour },
            coord.row as int,
            coord.column as int,
            r@,
        ),
{
    let row = coord.row;
    let column = coord.column;
    let ghost sq = board.pieces@;
    let ghost piece = ColourPiece { variant: Piece::Rook, colour: *colour };
    let mut moves: Vec<Coord> = Vec::new();
    ray_walk(board, *colour, row, column, 0, 1, 7, &mut moves);
    let ghost m1 = moves@;
    ray_walk(board, *colour, row, column, 0, -1, 7, &mut moves);
    let ghost m2 = moves@;
    ray_walk(board, *colour, row, column, 1, 0, 7, &mut moves);
    let ghost m3 = moves@;
    ray_walk(board, *colour, row, column, -1, 0, 7, &mut moves);
    proof {
        assert forall|i: int| 0 <= i < moves@.len() implies plain_dest(
            sq,
            piece,
            row as int,
            column as int,
            (#[trigger] moves@[i]).row as int,
            moves@[i].column as int,
        ) by {
            let co = moves@[i];
            if i < m1.len() {
                lemma_ray_props(sq, row as int, column as int, 0, 1, co.row as int, co.column as int, 7);
            } else if i < m2.len() {
                lemma_ray_props(sq, row as int, column as int, 0, -1, co.row as int, co.column as int, 7);
            } else if i < m3.len() {
                lemma_ray_props(sq, row as int, column as int, 1, 0, co.row as int, co.column as int, 7);
            } else {
                lemma_ray_props(sq, row as int, column as int, -1, 0, co.row as int, co.column as int, 7);
            }
        }
        assert forall|er: int, ec: int| #[trigger] plain_dest(
            sq,
            piece,
            row as int,
            column as int,
            er,
            ec,
        ) implies moves@.contains(Coord { row: er as i32, column: ec as i32 }) by {
            let target = Coord { row: er as i32, column: ec as i32 };
            if ray_dest(sq, row as int, column as int, 0, 1, er, ec, 7) {
                lemma_contains_in_extension(m1, moves@, target);
            } else if ray_dest(sq, row as int, column as int, 0, -1, er, ec, 7) {
                lemma_contains_in_extension(m2, moves@, target);
            } else if ray_dest(sq, row as int, column as int, 1, 0, er, ec, 7) {
                lemma_contains_in_extension(m3, moves@, target);
            }
        }
    }
    moves
}

} // verus!
