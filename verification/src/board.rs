//! Board queries built on the move generator: looking pieces up, collecting
//! every pseudo-legal move of one colour, threat detection, and castling
//! legality.

use vstd::prelude::*;

use crate::moves::piece_moveset;
use crate::rules::{
    all_moves_exact, back_rank_kind, board_move_at, board_move_ok, castle_allowed, check_state,
    gen_depth, is_empty_at, king_scan, moves_exact_from, piece_at, piece_gen_depth,
    piece_option_at, pseudo_dest, space_at, square_threatened, start_space, threatens_from,
};
use crate::util::{lemma_contains_in_extension, lemma_push_contains};
use crate::{
    Board, CastleRights, CastleSide, Colour, ColourPiece, Coord, GameState, Move, Piece, Space,
    Square, coord_on_board, lemma_square_at_index, square_at, square_of_index, validate_coord,
};

verus! {

broadcast use crate::util::lemma_push_contains;

impl Board {
    /// The standard start position: White to move, both sides fully
    /// castling-eligible.
    pub fn new() -> (r: Board)
        ensures
            forall|i: int| 0 <= i < 64 ==> r.pieces@[i] == crate::rules::start_space(i),
            r.turn == Colour::White,
            r.white_rights == (CastleRights { queen_side: true, king_side: true }),
            r.black_rights == (CastleRights { queen_side: true, king_side: true }),
    {
        let mut pieces: [Space; 64] = [Space::Empty; 64];
        let mut i: usize = 0;
        while i < 64
            invariant
                0 <= i <= 64,
                forall|j: int| 0 <= j < i ==> pieces@[j] == crate::rules::start_space(j),
            decreases 64 - i,
        {
            pieces[i] = start_space_at(i);
            i += 1;
        }
        Board {
            pieces,
            turn: Colour::White,
            white_rights: CastleRights { queen_side: true, king_side: true },
            black_rights: CastleRights { queen_side: true, king_side: true },
        }
    }

    /// Apply a move with no legality checks: place the recorded piece on the
    /// destination, clear the origin, and relocate the rook when the move is
    /// a castle-shaped king move. Exists separately from `move_piece` so that
    /// check simulation and real execution share it without recursing.
    pub(crate) fn execute_move(&mut self, _move: Move)
        requires
            _move.wf(),
        ensures
            final(self).pieces@ == crate::rules::apply_move_squares(old(self).pieces@, _move),
            final(self).turn == old(self).turn,
            final(self).white_rights == old(self).white_rights,
            final(self).black_rights == old(self).black_rights,
    {
        self.pieces[_move.end.index as usize] = Space::Full(_move.piece);
        self.pieces[_move.start.index as usize] = Space::Empty;

        // Swap the rook to its new position during a castle
        if matches!(_move.piece.variant, Piece::King) && _move.start.coord.column == 4 && (
        _move.end.coord.column == 2 || _move.end.coord.column == 6) {
            let row = _move.end.coord.row;
            let (old_rook, new_rook) = if _move.end.coord.column == 6 {
                ((row * 8 + 7) as usize, (row * 8 + 5) as usize)
            } else {
                ((row * 8 + 0) as usize, (row * 8 + 3) as usize)
            };
            self.pieces[new_rook] = self.pieces[old_rook];
            self.pieces[old_rook] = Space::Empty;
        }
    }

    /// The square of the first king of `colour`, scanning from the bottom
    /// left. A board may lack a king mid-simulation (when the capture of a
    /// king is being examined), so the result is optional.
    pub(crate) fn get_king(&self, colour: &Colour) -> (r: Option<Square>)
        ensures
            r == crate::rules::king_square(self.pieces@, *colour),
            r matches Some(sq) ==> sq.wf(),
    {
        let mut i: usize = 0;
        while i < 64
            invariant
                0 <= i <= 64,
                king_scan(self.pieces@, *colour, 0) == king_scan(self.pieces@, *colour, i as int),
            decreases 64 - i,
        {
            let is_king = match self.pieces[i] {
                Space::Full(p) => matches!(p.variant, Piece::King) && p.colour == *colour,
                Space::Empty => false,
            };
            if is_king {
                proof {
                    assert(king_scan(self.pieces@, *colour, i as int) == Some(i as int));
                    lemma_square_at_index(i as int / 8, i as int % 8);
                }
                return Some(Square::from_index(i as i32));
            }
            proof {
                assert(king_scan(self.pieces@, *colour, i as int) == king_scan(
                    self.pieces@,
                    *colour,
                    i as int + 1,
                ));
            }
            i += 1;
        }
        None
    }

    /// Which colour, if any, is currently in check: the side to move is
    /// reported iff its king's square is threatened by the opponent. With
    /// either king missing, no check is reported.
    pub(crate) fn in_check_state(&self) -> (r: Option<Colour>)
        ensures
            r == check_state(self.pieces@, self.turn),
    {
        let w_king = match self.get_king(&Colour::White) {
            Some(square) => square,
            None => {
                return None;
            },
        };
        let b_king = match self.get_king(&Colour::Black) {
            Some(square) => square,
            None => {
                return None;
            },
        };

        proof {
            lemma_king_scan_bounds(self.pieces@, Colour::White, 0);
            lemma_king_scan_bounds(self.pieces@, Colour::Black, 0);
            lemma_square_at_index(w_king.coord.row as int, w_king.coord.column as int);
            lemma_square_at_index(b_king.coord.row as int, b_king.coord.column as int);
        }
        if self.is_threatened(&Colour::Black, w_king) && self.turn == Colour::White {
            Some(Colour::White)
        } else if self.is_threatened(&Colour::White, b_king) && self.turn == Colour::Black {
            Some(Colour::Black)
        } else {
            None
        }
    }

    /// Which colour, if any, would be in check after `_move` is applied to a
    /// scratch copy of the board. The real board is untouched.
    pub(crate) fn does_move_cause_check(&self, _move: Move) -> (r: Option<Colour>)
        requires
            _move.wf(),
        ensures
            r == check_state(
                crate::rules::apply_move_squares(self.pieces@, _move),
                self.turn,
            ),
    {
        let mut new_board = *self;
        new_board.execute_move(_move);
        new_board.in_check_state()
    }

    /// Whether `_move` reproduces a move that the generator emits for its
    /// piece from its start square: equality compares the piece, the origin,
    /// and the destination.
    pub(crate) fn validate_move(&self, _move: Move) -> (r: bool)
        requires
            _move.wf(),
        ensures
            r == crate::rules::valid_move(*self, _move),
    {
        let valid_moves = self.get_piece_moves(_move.piece, _move.start.index, false);
        proof {
            lemma_square_at_index(_move.start.coord.row as int, _move.start.coord.column as int);
            lemma_square_at_index(_move.end.coord.row as int, _move.end.coord.column as int);
        }
        let mut i: usize = 0;
        while i < valid_moves.len()
            invariant
                0 <= i <= valid_moves@.len(),
                _move.wf(),
                moves_exact_from(
                    *self,
                    _move.piece,
                    _move.start.index as int / 8,
                    _move.start.index as int % 8,
                    false,
                    valid_moves@,
                ),
                _move.start.index as int / 8 == _move.start.coord.row as int,
                _move.start.index as int % 8 == _move.start.coord.column as int,
                forall|j: int| 0 <= j < i ==> (#[trigger] valid_moves@[j]) != _move,
            decreases valid_moves@.len() - i,
        {
            if valid_moves[i] == _move {
                return true;
            }
            i += 1;
        }
        proof {
            if crate::rules::valid_move(*self, _move) {
                assert(valid_moves@.contains(
                    Move {
                        piece: _move.piece,
                        start: square_at(
                            _move.start.coord.row as int,
                            _move.start.coord.column as int,
                        ),
                        end: square_at(_move.end.coord.row as int, _move.end.coord.column as int),
                    },
                ));
            }
        }
        false
    }

    /// Classify the position for the side to move: checkmate when no fully
    /// legal move exists and the side is in check, stalemate when no fully
    /// legal move exists otherwise, and playing in every other position.
    pub(crate) fn check_mate(&self) -> (r: GameState)
        ensures
            r == crate::rules::end_state(*self),
    {
        let moves = self.get_possible_moves(&self.turn, false);
        let mut has_safe = false;
        let mut i: usize = 0;
        while i < moves.len()
            invariant
                0 <= i <= moves@.len(),
                all_moves_exact(*self, self.turn, false, moves@),
                has_safe ==> crate::rules::safe_move_exists(*self),
                !has_safe ==> forall|j: int|
                    0 <= j < i ==> !(check_state(
                        crate::rules::apply_move_squares(self.pieces@, #[trigger] moves@[j]),
                        self.turn,
                    ) is None),
            decreases moves@.len() - i,
        {
            let m = moves[i];
            let keep = match self.does_move_cause_check(m) {
                None => true,
                Some(colour) => !(colour == self.turn),
            };
            if keep {
                proof {
                    let sr = m.start.coord.row as int;
                    let sc = m.start.coord.column as int;
                    let er = m.end.coord.row as int;
                    let ec = m.end.coord.column as int;
                    assert(board_move_at(*self, sr, sc, er, ec) == m);
                    assert(crate::rules::safe_move_from(*self, sr, sc, er, ec));
                }
                has_safe = true;
            }
            i += 1;
        }

        if has_safe {
            GameState::Playing
        } else {
            proof {
                if crate::rules::safe_move_exists(*self) {
                    let (sr, sc, er, ec) = choose|sr: int, sc: int, er: int, ec: int|
                        crate::rules::safe_move_from(*self, sr, sc, er, ec);
                    assert(moves@.contains(board_move_at(*self, sr, sc, er, ec)));
                }
            }
            if self.in_check_state().is_some() {
                GameState::Checkmate(self.turn)
            } else {
                GameState::Stalemate
            }
        }
    }

    /// Validate and perform `_move`: it must reproduce a generated
    /// pseudo-legal move, it must be the moving piece's turn, and the
    /// mover's own king must not be left in check. On success the board is
    /// updated (promotion, castling-rights bookkeeping, rook relocation on a
    /// castle), the turn flips, and the new position is classified for the
    /// side now to move. On failure the board is unchanged.
    pub fn move_piece(&mut self, _move: Move) -> (r: Result<GameState, String>)
        requires
            _move.wf(),
        ensures
            match r {
                Ok(state) => {
                    &&& crate::rules::move_allowed(*old(self), _move)
                    &&& final(self).pieces@ == crate::rules::apply_move_squares(
                        old(self).pieces@,
                        crate::rules::promoted_move(_move),
                    )
                    &&& final(self).turn == old(self).turn.opposite()
                    &&& final(self).white_rights == crate::rules::rights_after(
                        *old(self),
                        crate::rules::promoted_move(_move),
                        Colour::White,
                    )
                    &&& final(self).black_rights == crate::rules::rights_after(
                        *old(self),
                        crate::rules::promoted_move(_move),
                        Colour::Black,
                    )
                    &&& state == crate::rules::end_state(*final(self))
                },
                Err(e) => {
                    &&& !crate::rules::move_allowed(*old(self), _move)
                    &&& *final(self) == *old(self)
                    &&& if !crate::rules::valid_move(*old(self), _move) {
                        e@ == "move_piece: Move was invalid..."@
                    } else if _move.piece.colour != old(self).turn {
                        e@ == (if old(self).turn is White {
                            "It is currently White's turn!"@
                        } else {
                            "It is currently Black's turn!"@
                        })
                    } else {
                        e@ == (if old(self).turn is White {
                            "White would be in check!"@
                        } else {
                            "Black would be in check!"@
                        })
                    }
                },
            },
    {
        if !self.validate_move(_move) {
            return Err("move_piece: Move was invalid...".to_owned());
        }
        if !(self.turn == _move.piece.colour) {
            return Err(
                match self.turn {
                    Colour::White => "It is currently White's turn!".to_owned(),
                    Colour::Black => "It is currently Black's turn!".to_owned(),
                },
            );
        }

        // Promotion: a pawn arriving on the opponent's back rank becomes a
        // queen of the same colour; there is no under-promotion choice.
        let mut m = _move;
        let promote = matches!(m.piece.variant, Piece::Pawn) && ((m.piece.colour
            == Colour::White && m.end.coord.row == 7) || (m.piece.colour == Colour::Black
            && m.end.coord.row == 0));
        if promote {
            m.piece = ColourPiece { variant: Piece::Queen, colour: m.piece.colour };
        }
        proof {
            assert(m == crate::rules::promoted_move(_move));
        }

        let check = self.does_move_cause_check(m);
        match check {
            Some(Colour::White) => {
                return Err("White would be in check!".to_owned());
            },
            Some(Colour::Black) => {
                return Err("Black would be in check!".to_owned());
            },
            None => {},
        }

        // Disable castling upon moving a rook off its original corner or
        // moving the king at all.
        if matches!(m.piece.variant, Piece::Rook) {
            let home: i32 = match self.turn {
                Colour::White => 0,
                Colour::Black => 7,
            };
            if m.start.coord.row == home {
                if m.start.coord.column == 0 {
                    match self.turn {
                        Colour::White => {
                            self.white_rights = CastleRights {
                                queen_side: false,
                                king_side: self.white_rights.king_side,
                            };
                        },
                        Colour::Black => {
                            self.black_rights = CastleRights {
                                queen_side: false,
                                king_side: self.black_rights.king_side,
                            };
                        },
                    }
                } else if m.start.coord.column == 7 {
                    match self.turn {
                        Colour::White => {
                            self.white_rights = CastleRights {
                                queen_side: self.white_rights.queen_side,
                                king_side: false,
                            };
                        },
                        Colour::Black => {
                            self.black_rights = CastleRights {
                                queen_side: self.black_rights.queen_side,
                                king_side: false,
                            };
                        },
                    }
                }
            }
        } else if matches!(m.piece.variant, Piece::King) {
            match self.turn {
                Colour::White => {
                    self.white_rights = CastleRights { queen_side: false, king_side: false };
                },
                Colour::Black => {
                    self.black_rights = CastleRights { queen_side: false, king_side: false };
                },
            }
        }

        self.execute_move(m);

        // Switch to the perspective of the opposing player
        self.turn = self.turn.invert();

        // Classify the position before returning control to the player
        Ok(self.check_mate())
    }

    /// Convenience wrapper for pointer-driven interfaces: validate the
    /// coordinate pair, resolve the piece standing on the start square,
    /// build the move, and delegate to `move_piece`.
    pub fn attempt_move_with_coords(&mut self, start: Coord, end: Coord) -> (r: Result<
        GameState,
        String,
    >)
        ensures
            ({
                let sr = start.row as int;
                let sc = start.column as int;
                let er = end.row as int;
                let ec = end.column as int;
                let m = Move {
                    piece: piece_at(old(self).pieces@, sr, sc),
                    start: square_at(sr, sc),
                    end: square_at(er, ec),
                };
                match r {
                    Ok(state) => {
                        &&& coord_on_board(sr, sc) && coord_on_board(er, ec)
                        &&& space_at(old(self).pieces@, sr, sc) is Full
                        &&& crate::rules::move_allowed(*old(self), m)
                        &&& final(self).pieces@ == crate::rules::apply_move_squares(
                            old(self).pieces@,
                            crate::rules::promoted_move(m),
                        )
                        &&& final(self).turn == old(self).turn.opposite()
                        &&& final(self).white_rights == crate::rules::rights_after(
                            *old(self),
                            crate::rules::promoted_move(m),
                            Colour::White,
                        )
                        &&& final(self).black_rights == crate::rules::rights_after(
                            *old(self),
                            crate::rules::promoted_move(m),
                            Colour::Black,
                        )
                        &&& state == crate::rules::end_state(*final(self))
                    },
                    Err(_) => {
                        &&& *final(self) == *old(self)
                        &&& !(coord_on_board(sr, sc) && coord_on_board(er, ec)) || !(space_at(
                            old(self).pieces@,
                            sr,
                            sc,
                        ) is Full) || !crate::rules::move_allowed(*old(self), m)
                    },
                }
            }),
    {
        if validate_coord(&start) && validate_coord(&end) {
            let start_square = Square::from_coord(&start);
            let end_square = Square::from_coord(&end);
            let piece = match self.piece_at_coord(&start_square.coord) {
                Some(p) => p,
                None => {
                    return Err("Empty square used as start.".to_owned());
                },
            };

            let new_move = Move { piece, start: start_square, end: end_square };

            if self.validate_move(new_move) {
                self.move_piece(new_move)
            } else {
                Err("attempt_move: Move was invalid".to_owned())
            }
        } else {
            Err("attempt_move: Invalid coords passed".to_owned())
        }
    }

    /// Find the square of the piece of the given kind and colour that can
    /// reach `desired_square`: an error when no piece can, or when more than
    /// one can and the notation is ambiguous.
    pub(crate) fn locate_from_target_move(&self, piece: &ColourPiece, desired_square: Square) -> (r:
        Result<Square, String>)
        requires
            desired_square.wf(),
        ensures
            ({
                let er = desired_square.coord.row as int;
                let ec = desired_square.coord.column as int;
                match r {
                    Ok(sq) => {
                        &&& crate::rules::origin_matches(*self, *piece, er, ec, sq.index as int)
                        &&& sq == square_of_index(sq.index as int)
                        &&& sq.wf()
                        &&& forall|j: int|
                            #[trigger] crate::rules::origin_matches(*self, *piece, er, ec, j)
                                ==> j == sq.index as int
                    },
                    Err(e) => {
                        ||| ((forall|j: int|
                            !#[trigger] crate::rules::origin_matches(*self, *piece, er, ec, j))
                            && e@ == "No pieces can make that move."@)
                        ||| ((exists|j: int, k: int|
                            j != k && #[trigger] crate::rules::origin_matches(
                                *self,
                                *piece,
                                er,
                                ec,
                                j,
                            ) && #[trigger] crate::rules::origin_matches(*self, *piece, er, ec, k))
                            && e@ == "Try choosing a piece with a specific coordinate. E.g. rb3b5"@)
                    },
                }
            }),
    {
        let ghost er = desired_square.coord.row as int;
        let ghost ec = desired_square.coord.column as int;
        let mut piece_matches: Vec<Square> = Vec::new();
        let mut index: usize = 0;
        while index < 64
            invariant
                0 <= index <= 64,
                desired_square.wf(),
                er == desired_square.coord.row as int,
                ec == desired_square.coord.column as int,
                forall|k: int|
                    0 <= k < piece_matches@.len() ==> {
                        let sq = #[trigger] piece_matches@[k];
                        &&& crate::rules::origin_matches(*self, *piece, er, ec, sq.index as int)
                        &&& sq == square_of_index(sq.index as int)
                        &&& sq.wf()
                        &&& sq.index < index
                    },
                forall|k1: int, k2: int|
                    0 <= k1 < k2 < piece_matches@.len() ==> (#[trigger] piece_matches@[k1]).index
                        < (#[trigger] piece_matches@[k2]).index,
                forall|j: int|
                    0 <= j < index && #[trigger] crate::rules::origin_matches(
                        *self,
                        *piece,
                        er,
                        ec,
                        j,
                    ) ==> piece_matches@.contains(square_of_index(j)),
            decreases 64 - index,
        {
            let ghost prev = piece_matches@;
            let mut is_match = false;
            match self.pieces[index] {
                Space::Full(cpiece) => {
                    if cpiece.variant == piece.variant && cpiece.colour == piece.colour {
                        let ms = self.get_piece_moves(cpiece, index as i32, false);
                        let mut j: usize = 0;
                        while j < ms.len()
                            invariant
                                0 <= j <= ms@.len(),
                                desired_square.wf(),
                                er == desired_square.coord.row as int,
                                ec == desired_square.coord.column as int,
                                moves_exact_from(
                                    *self,
                                    cpiece,
                                    index as int / 8,
                                    index as int % 8,
                                    false,
                                    ms@,
                                ),
                                is_match ==> crate::rules::pseudo_dest(
                                    *self,
                                    cpiece,
                                    index as int / 8,
                                    index as int % 8,
                                    er,
                                    ec,
                                    false,
                                ),
                                !is_match ==> forall|j0: int|
                                    0 <= j0 < j ==> (#[trigger] ms@[j0]).end != desired_square,
                            decreases ms@.len() - j,
                        {
                            if ms[j].end == desired_square {
                                is_match = true;
                            }
                            j += 1;
                        }
                        proof {
                            lemma_square_at_index(index as int / 8, index as int % 8);
                            if !is_match && crate::rules::pseudo_dest(
                                *self,
                                cpiece,
                                index as int / 8,
                                index as int % 8,
                                er,
                                ec,
                                false,
                            ) {
                                assert(ms@.contains(
                                    Move {
                                        piece: cpiece,
                                        start: square_at(index as int / 8, index as int % 8),
                                        end: square_at(er, ec),
                                    },
                                ));
                            }
                        }
                    }
                },
                Space::Empty => {},
            }
            if is_match {
                piece_matches.push(Square::from_index(index as i32));
            }
            proof {
                assert forall|j: int|
                    0 <= j < index + 1 && #[trigger] crate::rules::origin_matches(
                        *self,
                        *piece,
                        er,
                        ec,
                        j,
                    ) implies piece_matches@.contains(square_of_index(j)) by {
                    if j < index {
                        lemma_contains_in_extension(prev, piece_matches@, square_of_index(j));
                    } else {
                        assert(piece_matches@[piece_matches@.len() - 1] == square_of_index(j));
                    }
                }
            }
            index += 1;
        }

        if piece_matches.len() == 0 {
            Err("No pieces can make that move.".to_owned())
        } else if piece_matches.len() == 1 {
            proof {
                assert forall|j: int|
                    #[trigger] crate::rules::origin_matches(*self, *piece, er, ec, j)
                        implies j == piece_matches@[0].index as int by {
                    if 0 <= j < 64 {
                        assert(piece_matches@.contains(square_of_index(j)));
                    }
                }
            }
            Ok(piece_matches[0])
        } else {
            proof {
                assert(piece_matches@[0].index < piece_matches@[1].index);
            }
            Err("Try choosing a piece with a specific coordinate. E.g. rb3b5".to_owned())
        }
    }

    /// Whether the occupant of `space` belongs to the side to move and has
    /// at least one pseudo-legal destination out of `square`. This does not
    /// test whether such a move would leave the mover's own king in check.
    pub fn can_square_move(&self, space: &Space, square: &Square) -> (r: bool)
        requires
            square.wf(),
        ensures
            r == ((*space) matches Space::Full(piece) && piece.colour == self.turn && exists|
                er: int,
                ec: int,
            |
                crate::rules::pseudo_dest(
                    *self,
                    piece,
                    square.coord.row as int,
                    square.coord.column as int,
                    er,
                    ec,
                    false,
                )),
    {
        match space {
            Space::Empty => false,
            Space::Full(piece) => {
                proof {
                    lemma_square_at_index(square.coord.row as int, square.coord.column as int);
                }
                let ms = self.get_piece_moves(*piece, square.index, false);
                let non_empty = ms.len() > 0;
                proof {
                    let sr = square.coord.row as int;
                    let sc = square.coord.column as int;
                    if non_empty {
                        let m = ms@[0];
                        assert(crate::rules::pseudo_dest(
                            *self,
                            *piece,
                            sr,
                            sc,
                            m.end.coord.row as int,
                            m.end.coord.column as int,
                            false,
                        ));
                    } else {
                        if exists|er: int, ec: int|
                            crate::rules::pseudo_dest(*self, *piece, sr, sc, er, ec, false) {
                            let (er, ec) = choose|er: int, ec: int|
                                crate::rules::pseudo_dest(*self, *piece, sr, sc, er, ec, false);
                            assert(ms@.contains(
                                Move {
                                    piece: *piece,
                                    start: square_at(sr, sc),
                                    end: square_at(er, ec),
                                },
                            ));
                        }
                    }
                }
                non_empty && piece.colour == self.turn
            },
        }
    }

    /// The piece at `coord`, or nothing when `coord` is off the board or the
    /// square there is empty.
    pub fn piece_at_coord(&self, coord: &Coord) -> (r: Option<ColourPiece>)
        ensures
            r == piece_option_at(self.pieces@, coord.row as int, coord.column as int),
    {
        if validate_coord(coord) {
            match self.pieces[Square::from_coord(coord).index as usize] {
                Space::Full(piece) => Some(piece),
                Space::Empty => None,
            }
        } else {
            None
        }
    }

    /// The pseudo-legal moves of `piece` as if it stood on the square with
    /// the given linear index: the raw per-kind targets, with off-board
    /// coordinates, the origin square, and squares holding the mover's own
    /// pieces filtered out.
    pub fn get_piece_moves(&self, piece: ColourPiece, index: i32, exclude_castle: bool) -> (r:
        Vec<Move>)
        requires
            0 <= index < 64,
        ensures
            moves_exact_from(
                *self,
                piece,
                index as int / 8,
                index as int % 8,
                exclude_castle,
                r@,
            ),
        decreases piece_gen_depth(piece, exclude_castle), 8int,
    {
        let coord = Square::from_index(index).coord;
        let ghost sr = index as int / 8;
        let ghost sc = index as int % 8;
        let potential: Vec<Coord> = match piece.variant {
            Piece::King => piece_moveset(piece, self, &coord, exclude_castle),
            _ => piece_moveset(piece, self, &coord, false),
        };
        proof {
            assert forall|er: int, ec: int| #[trigger] pseudo_dest(
                *self,
                piece,
                sr,
                sc,
                er,
                ec,
                exclude_castle,
            ) implies potential@.contains(Coord { row: er as i32, column: ec as i32 }) by {
                assert(pseudo_dest(
                    *self,
                    piece,
                    sr,
                    sc,
                    er,
                    ec,
                    if piece.variant is King {
                        exclude_castle
                    } else {
                        false
                    },
                ));
            }
        }
        let start_sq = Square::from_coord(&coord);
        proof {
            lemma_square_at_index(sr, sc);
        }
        let mut out: Vec<Move> = Vec::new();
        let mut j: usize = 0;
        while j < potential.len()
            invariant
                0 <= j <= potential@.len(),
                0 <= index < 64,
                coord == square_of_index(index as int).coord,
                sr == index as int / 8,
                sc == index as int % 8,
                coord_on_board(sr, sc),
                coord.row as int == sr,
                coord.column as int == sc,
                start_sq == square_at(sr, sc),
                forall|i: int|
                    0 <= i < potential@.len() ==> crate::rules::raw_dest(
                        *self,
                        piece,
                        sr,
                        sc,
                        (#[trigger] potential@[i]).row as int,
                        potential@[i].column as int,
                        if piece.variant is King {
                            exclude_castle
                        } else {
                            false
                        },
                    ),
                forall|i: int|
                    0 <= i < out@.len() ==> {
                        let m = #[trigger] out@[i];
                        &&& m.piece == piece
                        &&& m.start == square_at(sr, sc)
                        &&& m.end.wf()
                        &&& pseudo_dest(
                            *self,
                            piece,
                            sr,
                            sc,
                            m.end.coord.row as int,
                            m.end.coord.column as int,
                            exclude_castle,
                        )
                    },
                forall|er: int, ec: int|
                    #[trigger] pseudo_dest(*self, piece, sr, sc, er, ec, exclude_castle)
                        ==> out@.contains(
                        Move { piece, start: square_at(sr, sc), end: square_at(er, ec) },
                    ) || (exists|k: int|
                        j <= k < potential@.len() && potential@[k] == Coord {
                            row: er as i32,
                            column: ec as i32,
                        }),
            decreases potential@.len() - j,
        {
            let v = potential[j];
            let ghost prev = out@;
            if validate_coord(&v) {
                let not_self = !(v == coord);
                let not_own = match self.piece_at_coord(&v) {
                    Some(cp) => !(cp.colour == piece.colour),
                    None => true,
                };
                if not_self && not_own {
                    out.push(Move { piece, start: start_sq, end: Square::from_coord(&v) });
                }
            }
            j += 1;
            proof {
                assert forall|er: int, ec: int|
                    #[trigger] pseudo_dest(*self, piece, sr, sc, er, ec, exclude_castle)
                        implies out@.contains(
                        Move { piece, start: square_at(sr, sc), end: square_at(er, ec) },
                    ) || (exists|k: int|
                        j <= k < potential@.len() && potential@[k] == Coord {
                            row: er as i32,
                            column: ec as i32,
                        }) by {
                    let target_move = Move {
                        piece,
                        start: square_at(sr, sc),
                        end: square_at(er, ec),
                    };
                    if prev.contains(target_move) {
                        lemma_contains_in_extension(prev, out@, target_move);
                    } else if exists|k: int|
                        j - 1 <= k < potential@.len() && potential@[k] == (Coord {
                            row: er as i32,
                            column: ec as i32,
                        }) {
                        let k = choose|k: int|
                            j - 1 <= k < potential@.len() && potential@[k] == (Coord {
                                row: er as i32,
                                column: ec as i32,
                            });
                        if k == j - 1 {
                            assert(out@ == prev.push(target_move));
                        }
                    }
                }
            }
        }
        out
    }

    /// Every pseudo-legal move of every piece of `colour` on the board, in
    /// the bottom-left to top-right square scan order.
    pub(crate) fn get_possible_moves(&self, colour: &Colour, exclude_castle: bool) -> (r: Vec<
        Move,
    >)
        ensures
            all_moves_exact(*self, *colour, exclude_castle, r@),
        decreases gen_depth(exclude_castle), 9int,
    {
        let mut out: Vec<Move> = Vec::new();
        let mut index: usize = 0;
        while index < 64
            invariant
                0 <= index <= 64,
                forall|i: int|
                    0 <= i < out@.len() ==> {
                        let m = #[trigger] out@[i];
                        &&& m.wf()
                        &&& m.piece == piece_at(
                            self.pieces@,
                            m.start.coord.row as int,
                            m.start.coord.column as int,
                        )
                        &&& board_move_ok(
                            *self,
                            *colour,
                            m.start.coord.row as int,
                            m.start.coord.column as int,
                            m.end.coord.row as int,
                            m.end.coord.column as int,
                            exclude_castle,
                        )
                    },
                forall|sr: int, sc: int, er: int, ec: int|
                    #[trigger] board_move_ok(*self, *colour, sr, sc, er, ec, exclude_castle)
                        && sr * 8 + sc < index ==> out@.contains(
                        board_move_at(*self, sr, sc, er, ec),
                    ),
            decreases 64 - index,
        {
            let ghost pre_square = out@;
            match self.pieces[index] {
                Space::Full(p) => {
                    if p.colour == *colour {
                        let ms = self.get_piece_moves(p, index as i32, exclude_castle);
                        let ghost sr = index as int / 8;
                        let ghost sc = index as int % 8;
                        proof {
                            lemma_square_at_index(sr, sc);
                        }
                        let mut k: usize = 0;
                        while k < ms.len()
                            invariant
                                0 <= k <= ms@.len(),
                                0 <= index < 64,
                                sr == index as int / 8,
                                sc == index as int % 8,
                                coord_on_board(sr, sc),
                                square_at(sr, sc).wf(),
                                self.pieces@[index as int] == Space::Full(p),
                                p.colour == *colour,
                                moves_exact_from(*self, p, sr, sc, exclude_castle, ms@),
                                pre_square.len() <= out@.len(),
                                forall|i: int|
                                    0 <= i < pre_square.len() ==> out@[i] == pre_square[i],
                                forall|i: int|
                                    0 <= i < out@.len() ==> {
                                        let m = #[trigger] out@[i];
                                        &&& m.wf()
                                        &&& m.piece == piece_at(
                                            self.pieces@,
                                            m.start.coord.row as int,
                                            m.start.coord.column as int,
                                        )
                                        &&& board_move_ok(
                                            *self,
                                            *colour,
                                            m.start.coord.row as int,
                                            m.start.coord.column as int,
                                            m.end.coord.row as int,
                                            m.end.coord.column as int,
                                            exclude_castle,
                                        )
                                    },
                                forall|sr0: int, sc0: int, er: int, ec: int|
                                    #[trigger] board_move_ok(
                                        *self,
                                        *colour,
                                        sr0,
                                        sc0,
                                        er,
                                        ec,
                                        exclude_castle,
                                    ) && sr0 * 8 + sc0 < index ==> out@.contains(
                                        board_move_at(*self, sr0, sc0, er, ec),
                                    ),
                                forall|i: int| 0 <= i < k ==> out@.contains(#[trigger] ms@[i]),
                            decreases ms@.len() - k,
                        {
                            let ghost prev = out@;
                            let m = ms[k];
                            out.push(m);
                            proof {
                                assert(out@ == prev.push(m));
                                assert forall|sr0: int, sc0: int, er: int, ec: int|
                                    #[trigger] board_move_ok(
                                        *self,
                                        *colour,
                                        sr0,
                                        sc0,
                                        er,
                                        ec,
                                        exclude_castle,
                                    ) && sr0 * 8 + sc0 < index implies out@.contains(
                                    board_move_at(*self, sr0, sc0, er, ec),
                                ) by {
                                    lemma_contains_in_extension(
                                        prev,
                                        out@,
                                        board_move_at(*self, sr0, sc0, er, ec),
                                    );
                                }
                                assert forall|i: int| 0 <= i < k + 1 implies out@.contains(
                                    #[trigger] ms@[i],
                                ) by {
                                    if i < k {
                                        lemma_contains_in_extension(prev, out@, ms@[i]);
                                    } else {
                                        assert(out@[prev.len() as int] == ms@[i]);
                                    }
                                }
                            }
                            k += 1;
                        }
                        proof {
                            assert forall|sr0: int, sc0: int, er: int, ec: int|
                                #[trigger] board_move_ok(
                                    *self,
                                    *colour,
                                    sr0,
                                    sc0,
                                    er,
                                    ec,
                                    exclude_castle,
                                ) && sr0 * 8 + sc0 < index + 1 implies out@.contains(
                                board_move_at(*self, sr0, sc0, er, ec),
                            ) by {
                                if sr0 * 8 + sc0 == index as int {
                                    lemma_square_at_index(sr0, sc0);
                                    assert(sr0 == sr && sc0 == sc);
                                    let target_move = board_move_at(*self, sr0, sc0, er, ec);
                                    assert(piece_at(self.pieces@, sr, sc) == p);
                                    assert(ms@.contains(
                                        Move {
                                            piece: p,
                                            start: square_at(sr, sc),
                                            end: square_at(er, ec),
                                        },
                                    ));
                                    let i = choose|i: int|
                                        0 <= i < ms@.len() && ms@[i] == Move {
                                            piece: p,
                                            start: square_at(sr, sc),
                                            end: square_at(er, ec),
                                        };
                                    assert(out@.contains(ms@[i]));
                                }
                            }
                        }
                    } else {
                        proof {
                            lemma_no_moves_at(*self, *colour, index as int, exclude_castle);
                        }
                    }
                },
                Space::Empty => {
                    proof {
                        lemma_no_moves_at(*self, *colour, index as int, exclude_castle);
                    }
                },
            }
            index += 1;
        }
        out
    }

    /// Whether any piece of `threatening_colour` has a castling-free
    /// pseudo-legal move ending on `square`.
    pub(crate) fn is_threatened(&self, threatening_colour: &Colour, square: Square) -> (r: bool)
        requires
            square.wf(),
        ensures
            r == square_threatened(
                self.pieces@,
                *threatening_colour,
                square.coord.row as int,
                square.coord.column as int,
            ),
        decreases 1int, 3int,
    {
        let ghost er = square.coord.row as int;
        let ghost ec = square.coord.column as int;
        let moves = self.get_possible_moves(threatening_colour, true);
        let mut i: usize = 0;
        while i < moves.len()
            invariant
                0 <= i <= moves@.len(),
                square.wf(),
                er == square.coord.row as int,
                ec == square.coord.column as int,
                all_moves_exact(*self, *threatening_colour, true, moves@),
                forall|j: int| 0 <= j < i ==> (#[trigger] moves@[j]).end != square,
            decreases moves@.len() - i,
        {
            if moves[i].end == square {
                proof {
                    let m = moves@[i as int];
                    assert(threatens_from(
                        self.pieces@,
                        *threatening_colour,
                        m.start.coord.row as int,
                        m.start.coord.column as int,
                        er,
                        ec,
                    ));
                }
                return true;
            }
            i += 1;
        }
        proof {
            if square_threatened(self.pieces@, *threatening_colour, er, ec) {
                let (sr, sc) = choose|sr: int, sc: int|
                    threatens_from(self.pieces@, *threatening_colour, sr, sc, er, ec);
                assert(board_move_ok(*self, *threatening_colour, sr, sc, er, ec, true));
                assert(moves@.contains(board_move_at(*self, sr, sc, er, ec)));
                let i = choose|i: int|
                    0 <= i < moves@.len() && moves@[i] == board_move_at(*self, sr, sc, er, ec);
                lemma_square_at_index(er, ec);
                assert(moves@[i].end == square);
            }
        }
        false
    }

    /// Whether one castle-path square stops `colour` from castling: it does
    /// when it is occupied or threatened by `threatening_colour`.
    fn castle_square_blocked(&self, threatening_colour: Colour, row: i32, column: i32) -> (r:
        bool)
        requires
            coord_on_board(row as int, column as int),
        ensures
            r == !(is_empty_at(self.pieces@, row as int, column as int)
                && !square_threatened(
                self.pieces@,
                threatening_colour,
                row as int,
                column as int,
            )),
        decreases 1int, 4int,
    {
        let sq = Square::from_coord(&Coord { row, column });
        let threatened = self.is_threatened(&threatening_colour, sq);
        threatened || !matches!(self.pieces[sq.index as usize], Space::Empty)
    }

    /// Whether `colour` may castle to `side`: the rights flag must still be
    /// set, and every square the king or rook travels over must be empty and
    /// unthreatened. The king's current square is not examined.
    pub(crate) fn can_castle(&self, colour: &Colour, side: CastleSide) -> (r: bool)
        ensures
            r == castle_allowed(*self, *colour, side),
        decreases 1int, 5int,
    {
        let rights = match colour {
            Colour::White => self.white_rights,
            Colour::Black => self.black_rights,
        };
        let flag = match side {
            CastleSide::King => rights.king_side,
            CastleSide::Queen => rights.queen_side,
        };
        if !flag {
            return false;
        }
        let home: i32 = match colour {
            Colour::White => 0,
            Colour::Black => 7,
        };
        let opposing = colour.invert();
        match side {
            CastleSide::King => {
                !(self.castle_square_blocked(opposing, home, 5) || self.castle_square_blocked(
                    opposing,
                    home,
                    6,
                ))
            },
            CastleSide::Queen => {
                !(self.castle_square_blocked(opposing, home, 1) || self.castle_square_blocked(
                    opposing,
                    home,
                    2,
                ) || self.castle_square_blocked(opposing, home, 3))
            },
        }
    }
}

impl Default for Board {
    /// The standard start position.
    fn default() -> (r: Board)
        ensures
            forall|i: int| 0 <= i < 64 ==> r.pieces@[i] == crate::rules::start_space(i),
            r.turn == Colour::White,
            r.white_rights == (CastleRights { queen_side: true, king_side: true }),
            r.black_rights == (CastleRights { queen_side: true, king_side: true }),
    {
        Board::new()
    }
}

/// A successful king scan yields an index on the board, at or after the scan
/// start.
proof fn lemma_king_scan_bounds(sq: Seq<Space>, colour: Colour, i: int)
    requires
        king_scan(sq, colour, i) is Some,
    ensures
        match king_scan(sq, colour, i) {
            Some(j) => i <= j < 64,
            None => false,
        },
    decreases 64 - i,
{
    if 0 <= i < 64 && !(sq[i] matches Space::Full(p) && p.variant is King && p.colour == colour) {
        lemma_king_scan_bounds(sq, colour, i + 1);
    }
}

/// The start-position contents of the square with the given linear index.
fn start_space_at(index: usize) -> (s: Space)
    requires
        index < 64,
    ensures
        s == start_space(index as int),
{
    let row = index / 8;
    let column = index % 8;
    if row == 0 {
        Space::Full(ColourPiece { variant: back_rank_at(column), colour: Colour::White })
    } else if row == 1 {
        Space::Full(ColourPiece { variant: Piece::Pawn, colour: Colour::White })
    } else if row == 6 {
        Space::Full(ColourPiece { variant: Piece::Pawn, colour: Colour::Black })
    } else if row == 7 {
        Space::Full(ColourPiece { variant: back_rank_at(column), colour: Colour::Black })
    } else {
        Space::Empty
    }
}

/// The start-position piece kind on back-rank column `column`.
fn back_rank_at(column: usize) -> (p: Piece)
    requires
        column < 8,
    ensures
        p == back_rank_kind(column as int),
{
    if column == 0 || column == 7 {
        Piece::Rook
    } else if column == 1 || column == 6 {
        Piece::Knight
    } else if column == 2 || column == 5 {
        Piece::Bishop
    } else if column == 3 {
        Piece::Queen
    } else {
        Piece::King
    }
}

/// A square that is empty or holds the wrong colour contributes no moves.
proof fn lemma_no_moves_at(b: Board, colour: Colour, index: int, exclude_castle: bool)
    requires
        0 <= index < 64,
        !(b.pieces@[index] matches Space::Full(p) && p.colour == colour),
    ensures
        forall|er: int, ec: int|
            !(#[trigger] board_move_ok(b, colour, index / 8, index % 8, er, ec, exclude_castle)),
{
    lemma_square_at_index(index / 8, index % 8);
}

} // verus!
