//! Global properties of the engine, stated and proved against the rules
//! model: the round trip of a move and its inverse, the monotonicity of
//! castling rights, and the soundness of the end-of-game classification.

use vstd::prelude::*;

use crate::rules::{
    apply_move_squares, end_state, move_allowed, promoted_move, rights_after, safe_move_exists,
};
use crate::{Board, Colour, Move, Space, lemma_square_at_index};

verus! {

/// The position is never classified as checkmate or stalemate while the side
/// to move still has a pseudo-legal move that does not leave its own king in
/// check.
pub proof fn lemma_classify_playing(b: Board)
    requires
        safe_move_exists(b),
    ensures
        end_state(b) is Playing,
{
}

/// Castling rights only ever shrink: a flag still set after a move was
/// already set before it.
pub proof fn lemma_rights_monotonic(b: Board, m: Move, colour: Colour)
    ensures
        rights_after(b, m, colour).queen_side ==> (if colour is White {
            b.white_rights
        } else {
            b.black_rights
        }).queen_side,
        rights_after(b, m, colour).king_side ==> (if colour is White {
            b.white_rights
        } else {
            b.black_rights
        }).king_side,
{
}

/// Round trip: playing a legal move and then its exact inverse (origin and
/// destination swapped), when that inverse is itself legal, restores the
/// board's occupancy on every square other than the two involved; the mover
/// stands on its original square again, and the destination square is left
/// empty, so a piece captured by the first move is not restored. (Castling
/// rights are handled separately: they only ever shrink, see
/// `lemma_rights_monotonic`.)
pub proof fn lemma_move_round_trip(b0: Board, b1: Board, b2: Board, m: Move)
    requires
        m.wf(),
        move_allowed(b0, m),
        b1.pieces@ == apply_move_squares(b0.pieces@, promoted_move(m)),
        b1.turn == b0.turn.opposite(),
        b1.white_rights == rights_after(b0, promoted_move(m), Colour::White),
        b1.black_rights == rights_after(b0, promoted_move(m), Colour::Black),
        move_allowed(b1, (Move { piece: m.piece, start: m.end, end: m.start })),
        b2.pieces@ == apply_move_squares(
            b1.pieces@,
            promoted_move((Move { piece: m.piece, start: m.end, end: m.start })),
        ),
    ensures
        forall|i: int|
            0 <= i < 64 && i != m.start.index as int && i != m.end.index as int ==> b2.pieces@[i]
                == b0.pieces@[i],
        b2.pieces@[m.start.index as int] == Space::Full(m.piece),
        b2.pieces@[m.end.index as int] == Space::Empty,
        b0.pieces@[m.start.index as int] == Space::Full(m.piece) ==> b2.pieces@[m.start.index
            as int] == b0.pieces@[m.start.index as int],
{
    let inv = Move { piece: m.piece, start: m.end, end: m.start };
    let sr = m.start.coord.row as int;
    let sc = m.start.coord.column as int;
    let er = m.end.coord.row as int;
    let ec = m.end.coord.column as int;
    lemma_square_at_index(sr, sc);
    lemma_square_at_index(er, ec);

    // A pawn cannot move backwards, so a legal inverse rules promotion out.
    assert(!(m.piece.variant is Pawn));
    assert(promoted_move(m) == m);
    assert(promoted_move(inv) == inv);

    // A legal inverse also rules out castle-shaped king moves in either
    // direction: a king never legally travels two columns back.
    assert(!crate::rules::is_castle_shape(m));
    assert(!crate::rules::is_castle_shape(inv));

    // The two squares are distinct, so the four updates resolve plainly.
    assert(m.start.index != m.end.index);
}

} // verus!
