//! Making and taking back moves that come from outside: a move is made
//! only if it is legal, and taken back only if the pieces stand as it left
//! them; otherwise it is refused with the reason.
use vstd::prelude::*;
use crate::bitboard::OxideBitboard;
use crate::bits::on_board;
use crate::board::{OxideBoard, OxideBoardState};
use crate::castle::OxideCastleRights;
use crate::chess_move::{OxideIllegalMoveError, OxideMove, OxideMoveType};
use crate::legal::{is_legal_move, legal_moves, legal_moves_of, lemma_legal_move_keeps_king_safe};
use crate::line::{same_file, same_rank};
use crate::movegen::{castle_is_set, castle_move, castle_path_is_clear, generate_all, pseudo_moves};
use crate::movelist::MoveList;
use crate::piece::{OxidePiece, OxideSidedPiece};
use crate::position::OxidePosition;
use crate::rules::{
    can_apply, can_place, can_revert, captured_by, castle_rook_from, castle_rook_to,
    en_passant_victim, is_after, is_before, is_castle, king_attacked,
    leaves_king_safe, position_after,
};
use crate::square::{OxideSquare, lemma_square_of_index};

verus! {

/// Why a move that is not legal is refused. The first of these that holds
/// gives the reason: the start square is empty; the piece on it belongs to
/// the other side; the target holds a piece of the mover; the move is a
/// capture of nothing; the move is among the generated moves, and so fails
/// only because it leaves a king attacked (self-check); the move is a castle
/// that is set up, with the right held and the way free, and so fails only
/// because the way of the king is attacked; it is any other castle; it is a
/// capture in passing that the position does not offer; or the piece cannot
/// move so, by kind of piece.
pub open spec fn refusal(pos: OxidePosition, m: OxideMove) -> OxideIllegalMoveError {
    let from = m.source();
    let to = m.target();
    let kind = m.move_type;
    let moving = pos.sided_at(from);
    let target = pos.sided_at(to);
    if moving == OxideSidedPiece::Empty {
        OxideIllegalMoveError::MovingFromEmptySquare
    } else if moving.owner() != pos.mover() {
        OxideIllegalMoveError::MovingPieceForWrongSide
    } else if target != OxideSidedPiece::Empty && target.owner() == pos.mover() {
        OxideIllegalMoveError::CapturingOwnPiece
    } else if kind.captures() && kind != OxideMoveType::EnPassantCapture && target
        == OxideSidedPiece::Empty {
        OxideIllegalMoveError::NonCapturingCapture
    } else if pseudo_moves(pos, true).contains(m) {
        OxideIllegalMoveError::SelfCheck
    } else if is_castle(kind) {
        if m == castle_move(pos.mover(), kind) && castle_is_set(pos, kind) {
            OxideIllegalMoveError::CastlingThroughAttack
        } else {
            OxideIllegalMoveError::CastlingWithoutPermission
        }
    } else if kind == OxideMoveType::EnPassantCapture {
        OxideIllegalMoveError::NonExistentEnPassantCapture
    } else {
        match moving.kind() {
            OxidePiece::Pawn => if kind.captures() {
                if same_file(from, to) {
                    OxideIllegalMoveError::VerticalPawnCapture
                } else {
                    OxideIllegalMoveError::InvalidPawnPush
                }
            } else {
                if same_file(from, to) {
                    OxideIllegalMoveError::InvalidPawnPush
                } else {
                    OxideIllegalMoveError::HorizontalPawnPush
                }
            },
            OxidePiece::Bishop => OxideIllegalMoveError::InvalidDiagonalMovement,
            OxidePiece::Rook => OxideIllegalMoveError::InvalidCardinalMovement,
            OxidePiece::Queen => if same_rank(from, to) || same_file(from, to) {
                OxideIllegalMoveError::InvalidCardinalMovement
            } else {
                OxideIllegalMoveError::InvalidDiagonalMovement
            },
            _ => OxideIllegalMoveError::InvalidKnightJump,
        }
    }
}

/// Why a move cannot be taken back, or nothing where it can. The first of
/// these that holds gives the reason: no move was played, or the target
/// square is empty; the piece on it belongs to the side to move; the start
/// square is not free; the move is a capture and no piece is recorded as
/// captured; it is a capture in passing and the square of the captured pawn
/// is not free, or the en-passant square to restore is none; it is a castle
/// and king or rook do not stand as a castle leaves them; it is a promotion
/// and the piece is not the one promoted to.
pub open spec fn undo_refusal(
    pos: OxidePosition,
    m: OxideMove,
    captured: OxidePiece,
    en_passant: Option<OxideSquare>,
) -> Option<OxideIllegalMoveError> {
    let from = m.source();
    let to = m.target();
    let kind = m.move_type;
    let mover = pos.mover().other();
    let moved = pos.sided_at(to);
    if pos.plies() == 0 || moved == OxideSidedPiece::Empty {
        Some(OxideIllegalMoveError::MovingFromEmptySquare)
    } else if moved.owner() != mover {
        Some(OxideIllegalMoveError::MovingPieceForWrongSide)
    } else if from == to || pos.sided_at(from) != OxideSidedPiece::Empty {
        Some(OxideIllegalMoveError::CapturingOwnPiece)
    } else if kind.captures() && kind != OxideMoveType::EnPassantCapture && (captured == OxidePiece::Empty
        || captured == OxidePiece::King) {
        Some(OxideIllegalMoveError::NonCapturingCapture)
    } else if (kind == OxideMoveType::EnPassantCapture && (en_passant_victim(from, to) == from
        || en_passant_victim(from, to) == to || pos.sided_at(en_passant_victim(from, to))
        != OxideSidedPiece::Empty)) || (en_passant.is_some() && !crate::zobrist::is_en_passant_square(
        en_passant.unwrap().index(),
    )) {
        Some(OxideIllegalMoveError::NonExistentEnPassantCapture)
    } else if is_castle(kind) && !(moved.kind() == OxidePiece::King && on_board(castle_rook_from(from, kind))
        && on_board(castle_rook_to(from, kind)) && castle_rook_to(from, kind) != to && castle_rook_from(
        from,
        kind,
    ) != to && pos.sided_at(castle_rook_to(from, kind)) == OxidePiece::Rook.with_side(mover)
        && pos.sided_at(castle_rook_from(from, kind)) == OxideSidedPiece::Empty) {
        Some(OxideIllegalMoveError::CastlingWithoutPermission)
    } else if kind.promotes() && moved != kind.promoted().with_side(mover) {
        Some(OxideIllegalMoveError::InvalidPawnPush)
    } else {
        None
    }
}

/// A move can be taken back exactly where nothing speaks against it.
pub proof fn lemma_undo_refusal(
    pos: OxidePosition,
    m: OxideMove,
    captured: OxidePiece,
    en_passant: Option<OxideSquare>,
)
    ensures
        undo_refusal(pos, m, captured, en_passant).is_none() == can_revert(pos, m, captured, en_passant),
{
}

impl OxideBoard {
    /// Whether the move is among the moves that the pieces of the side to
    /// move can make.
    pub fn is_generated(&self, chess_move: &OxideMove) -> (r: bool)
        requires
            self.wf(),
        ensures
            r == pseudo_moves(self.pos(), true).contains(*chess_move),
    {
        let mut move_list = MoveList::new();
        generate_all(self, &mut move_list, OxideBitboard::full(), true);
        proof {
            assert(move_list@ =~= pseudo_moves(self.pos(), true));
        }
        move_list.contains(chess_move)
    }

    /// Whether the move is legal: a piece of the side to move can make it by
    /// the rules of movement, and it leaves the king of that side safe.
    pub fn is_legal(&self, chess_move: &OxideMove) -> (r: bool)
        requires
            self.wf(),
        ensures
            r == is_legal_move(self.pos(), *chess_move),
            r == legal_moves_of(self.pos()).contains(*chess_move),
    {
        proof {
            crate::legal::lemma_legal_moves_follow_the_rules(self.pos(), *chess_move);
            crate::generated::lemma_generated_moves_follow_the_rules(self.pos(), *chess_move);
            crate::generated::lemma_pseudo_moves_can_be_placed(self.pos(), true);
        }
        if !self.is_generated(chess_move) {
            return false;
        }
        if (chess_move.is_king_castle() || chess_move.is_queen_castle()) && self.in_check() {
            return false;
        }
        self.is_safe(chess_move)
    }

    /// Why the move, which is not legal, is refused.
    pub fn refusal_of(&self, chess_move: &OxideMove) -> (r: OxideIllegalMoveError)
        requires
            self.wf(),
        ensures
            r == refusal(self.pos(), *chess_move),
    {
        let position = self.position();
        let from = chess_move.from();
        let to = chess_move.to();
        let mover = position.side_to_move();
        let moving = position.sided_piece_on_square(from);
        let target = position.sided_piece_on_square(to);
        if moving == OxideSidedPiece::Empty {
            return OxideIllegalMoveError::MovingFromEmptySquare;
        }
        if moving.side() != mover {
            return OxideIllegalMoveError::MovingPieceForWrongSide;
        }
        if target != OxideSidedPiece::Empty && target.side() == mover {
            return OxideIllegalMoveError::CapturingOwnPiece;
        }
        if chess_move.is_capture() && !chess_move.is_en_passant_capture() && target == OxideSidedPiece::Empty {
            return OxideIllegalMoveError::NonCapturingCapture;
        }
        let castle = chess_move.is_king_castle() || chess_move.is_queen_castle();
        if self.is_generated(chess_move) {
            return OxideIllegalMoveError::SelfCheck;
        }
        if castle {
            let king_side = chess_move.is_king_castle();
            let white = mover.is_white();
            let home = if white {
                OxideSquare::E1
            } else {
                OxideSquare::E8
            };
            let landing = if white {
                if king_side {
                    OxideSquare::G1
                } else {
                    OxideSquare::C1
                }
            } else {
                if king_side {
                    OxideSquare::G8
                } else {
                    OxideSquare::C8
                }
            };
            let corner = if white {
                if king_side {
                    OxideSquare::H1
                } else {
                    OxideSquare::A1
                }
            } else {
                if king_side {
                    OxideSquare::H8
                } else {
                    OxideSquare::A8
                }
            };
            let right = if king_side {
                OxideCastleRights::BothKings.for_side(mover)
            } else {
                OxideCastleRights::BothQueens.for_side(mover)
            };
            proof {
                lemma_square_of_index(home);
                lemma_square_of_index(landing);
            }
            if from == home && to == landing && moving == OxidePiece::King.add_side(mover)
                && position.sided_piece_on_square(corner) == OxidePiece::Rook.add_side(mover)
                && castle_path_is_clear(self, right) {
                return OxideIllegalMoveError::CastlingThroughAttack;
            }
            return OxideIllegalMoveError::CastlingWithoutPermission;
        }
        if chess_move.is_en_passant_capture() {
            return OxideIllegalMoveError::NonExistentEnPassantCapture;
        }
        let on_file = from.x_offset() == to.x_offset();
        let on_rank = from.y_offset() == to.y_offset();
        match moving.unsided_piece() {
            OxidePiece::Pawn => if chess_move.is_capture() {
                if on_file {
                    OxideIllegalMoveError::VerticalPawnCapture
                } else {
                    OxideIllegalMoveError::InvalidPawnPush
                }
            } else {
                if on_file {
                    OxideIllegalMoveError::InvalidPawnPush
                } else {
                    OxideIllegalMoveError::HorizontalPawnPush
                }
            },
            OxidePiece::Bishop => OxideIllegalMoveError::InvalidDiagonalMovement,
            OxidePiece::Rook => OxideIllegalMoveError::InvalidCardinalMovement,
            OxidePiece::Queen => if on_rank || on_file {
                OxideIllegalMoveError::InvalidCardinalMovement
            } else {
                OxideIllegalMoveError::InvalidDiagonalMovement
            },
            _ => OxideIllegalMoveError::InvalidKnightJump,
        }
    }

    /// Makes the move if it is legal and returns the state as it stood,
    /// which is what taking the move back needs. A move that is not legal is
    /// refused with the reason, and the board stays as it is. Only a legal
    /// move needs room in the counters that it raises; a move that is
    /// refused needs none.
    pub fn make_move(&mut self, chess_move: OxideMove) -> (r: Result<OxideBoardState, OxideIllegalMoveError>)
        requires
            old(self).wf(),
            is_legal_move(old(self).pos(), chess_move) ==> can_apply(old(self).pos(), chess_move),
        ensures
            final(self).wf(),
            r.is_ok() == legal_moves_of(old(self).pos()).contains(chess_move),
            r.is_ok() == is_legal_move(old(self).pos(), chess_move),
            match r {
                Ok(state) => {
                    &&& state == old(self).status()
                    &&& is_after(old(self).pos(), chess_move, final(self).pos())
                    &&& final(self).pos() == position_after(old(self).pos(), chess_move)
                    &&& final(self).status().captured() == captured_by(old(self).pos(), chess_move).kind()
                    &&& final(self).can_undo(chess_move, state)
                    &&& leaves_king_safe(old(self).pos(), chess_move)
                    &&& !king_attacked(final(self).pos(), old(self).pos().mover())
                },
                Err(e) => e == refusal(old(self).pos(), chess_move) && *final(self) == *old(self),
            },
    {
        let legal = legal_moves(self);
        if legal.contains(&chess_move) {
            proof {
                let k = choose|k: int| 0 <= k < legal@.len() && legal@[k] == chess_move;
                assert(can_place(self.pos(), legal@[k]));
            }
            let ghost start = self.pos();
            let state = self.make_move_unchecked(chess_move);
            proof {
                lemma_legal_move_keeps_king_safe(start, chess_move, self.pos());
            }
            Ok(state)
        } else {
            Err(self.refusal_of(&chess_move))
        }
    }

    /// Why the move cannot be taken back with `previous_state`, or nothing
    /// where it can.
    pub fn undo_refusal_of(&self, chess_move: &OxideMove, previous_state: &OxideBoardState) -> (r: Option<
        OxideIllegalMoveError,
    >)
        requires
            self.wf(),
        ensures
            r == undo_refusal(
                self.pos(),
                *chess_move,
                self.status().captured(),
                previous_state.saved_en_passant(),
            ),
            r.is_none() == self.can_undo(*chess_move, *previous_state),
    {
        proof {
            lemma_undo_refusal(
                self.pos(),
                *chess_move,
                self.status().captured(),
                previous_state.saved_en_passant(),
            );
        }
        let position = self.position();
        let from = chess_move.from();
        let to = chess_move.to();
        let mover = position.side_to_move().opposite_side();
        let moved = position.sided_piece_on_square(to);
        let captured = self.state().captured_piece();
        if position.halfmove_count() == 0 || moved == OxideSidedPiece::Empty {
            return Some(OxideIllegalMoveError::MovingFromEmptySquare);
        }
        if moved.side() != mover {
            return Some(OxideIllegalMoveError::MovingPieceForWrongSide);
        }
        if from == to || position.sided_piece_on_square(from) != OxideSidedPiece::Empty {
            proof {
                if from != to {
                    assert(from.index() != to.index()) by {
                        if from.index() == to.index() {
                            crate::rules::lemma_square_by_index(from, to);
                        }
                    }
                }
            }
            return Some(OxideIllegalMoveError::CapturingOwnPiece);
        }
        proof {
            if from.index() == to.index() {
                crate::rules::lemma_square_by_index(from, to);
            }
        }
        if chess_move.is_capture() && !chess_move.is_en_passant_capture() && (captured == OxidePiece::Empty
            || captured == OxidePiece::King) {
            return Some(OxideIllegalMoveError::NonCapturingCapture);
        }
        if chess_move.is_en_passant_capture() {
            let victim = OxideSquare::at(from.y_offset() * 8 + to.x_offset());
            if victim == from || victim == to || position.sided_piece_on_square(victim)
                != OxideSidedPiece::Empty {
                proof {
                    if victim != from && victim.index() == from.index() {
                        crate::rules::lemma_square_by_index(victim, from);
                    }
                    if victim != to && victim.index() == to.index() {
                        crate::rules::lemma_square_by_index(victim, to);
                    }
                }
                return Some(OxideIllegalMoveError::NonExistentEnPassantCapture);
            }
        }
        match previous_state.en_passant_square() {
            Some(square) => {
                let rank = square.y_offset();
                if rank != 2 && rank != 5 {
                    return Some(OxideIllegalMoveError::NonExistentEnPassantCapture);
                }
            },
            None => {},
        }
        if chess_move.is_king_castle() || chess_move.is_queen_castle() {
            let king_side = chess_move.is_king_castle();
            let home = from.offset();
            let fits = if king_side {
                home + 3 < 64
            } else {
                home >= 4
            };
            if !fits || moved.unsided_piece() != OxidePiece::King {
                return Some(OxideIllegalMoveError::CastlingWithoutPermission);
            }
            let rook_from = if king_side {
                OxideSquare::at(home + 3)
            } else {
                OxideSquare::at(home - 4)
            };
            let rook_to = if king_side {
                OxideSquare::at(home + 1)
            } else {
                OxideSquare::at(home - 1)
            };
            if rook_to == to || rook_from == to || position.sided_piece_on_square(rook_to)
                != OxidePiece::Rook.add_side(mover) || position.sided_piece_on_square(rook_from)
                != OxideSidedPiece::Empty {
                proof {
                    if rook_to != to && rook_to.index() == to.index() {
                        crate::rules::lemma_square_by_index(rook_to, to);
                    }
                    if rook_from != to && rook_from.index() == to.index() {
                        crate::rules::lemma_square_by_index(rook_from, to);
                    }
                }
                return Some(OxideIllegalMoveError::CastlingWithoutPermission);
            }
        }
        if chess_move.is_promotion() && moved != chess_move.promotion().add_side(mover) {
            return Some(OxideIllegalMoveError::InvalidPawnPush);
        }
        None
    }

    /// Takes the move back if the pieces stand as the move left them. A
    /// move that cannot be taken back is refused with the reason, and the
    /// board stays as it is.
    ///
    /// Where the board is what making the move made of an earlier board,
    /// and `previous_state` is the state that making it returned, the move
    /// is taken back and the earlier board is restored in full.
    pub fn undo_move(&mut self, chess_move: OxideMove, previous_state: OxideBoardState) -> (r: Result<
        (),
        OxideIllegalMoveError,
    >)
        requires
            old(self).wf(),
        ensures
            final(self).wf(),
            r.is_ok() == old(self).can_undo(chess_move, previous_state),
            r.is_err() ==> *final(self) == *old(self) && Some(r.unwrap_err()) == undo_refusal(
                old(self).pos(),
                chess_move,
                old(self).status().captured(),
                previous_state.saved_en_passant(),
            ),
            r.is_ok() ==> is_before(
                old(self).pos(),
                chess_move,
                old(self).status().captured(),
                previous_state.saved_rights(),
                previous_state.saved_en_passant(),
                previous_state.saved_clock(),
                final(self).pos(),
            ) && final(self).status().captured() == previous_state.captured(),
            forall|before: OxideBoard| #[trigger]
                before.wf() && can_apply(before.pos(), chess_move) && previous_state == before.status()
                    && is_after(before.pos(), chess_move, old(self).pos())
                    && old(self).status().captured() == captured_by(before.pos(), chess_move).kind()
                    ==> r.is_ok() && *final(self) == before,
    {
        proof {
            assert forall|before: OxideBoard| #[trigger]
                before.wf() && can_apply(before.pos(), chess_move) && previous_state == before.status()
                    && is_after(before.pos(), chess_move, old(self).pos())
                    && old(self).status().captured() == captured_by(
                    before.pos(),
                    chess_move,
                ).kind() implies old(self).can_undo(chess_move, previous_state) by {
                crate::rules::lemma_revert_after_apply(before.pos(), chess_move, old(self).pos());
                crate::position::lemma_hash_is_expected(before.pos());
            }
        }
        match self.undo_refusal_of(&chess_move, &previous_state) {
            Some(e) => Err(e),
            None => {
                self.undo_move_unchecked(chess_move, previous_state);
                Ok(())
            },
        }
    }
}

} // verus!
