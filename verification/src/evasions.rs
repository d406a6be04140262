//! How a check is met.
//!
//! A move that is no move of the king meets a check by taking the piece
//! that gives it or by going between that piece and the king, and it cannot
//! meet two checks at once.
use vstd::prelude::*;
use crate::attacks::{pawn_east, pawn_west, step_hits};
use crate::bitboard::ray_hits;
use crate::bits::{bit, lemma_bit_not, lemma_bit_single};
use crate::chess_move::{OxideMove, OxideMoveType};
use crate::generated::{
    follows_pawn_rule, is_pseudo_legal, lemma_generated_moves_follow_the_rules, lemma_pseudo_moves_can_be_placed,
    steps,
};
use crate::legal::{legal_moves_of, safe_on};
use crate::line::{lemma_step_coordinates, strictly_between};
use crate::movegen::pseudo_moves;
use crate::paths::{lemma_between_on_ray, lemma_one_way_in, lemma_ray_path, lemma_slider_hits, passes, slides_in};
use crate::piece::{OxidePiece, OxideSidedPiece, lemma_with_side_round_trip};
use crate::position::{OxidePosition, lemma_position_occupancy};
use crate::rays::Direction;
use crate::rules::{
    attacks_king, can_place, en_passant_victim, holds_side, is_castle, is_safe_move, is_slider, king_attacked,
    lemma_moved_exists, moved, piece_after, single, square_attacks,
};
use crate::square::lemma_square_of_index;

verus! {

/// Whether the move takes the piece on square `c` off the board.
pub open spec fn takes(m: OxideMove, c: int) -> bool {
    if m.move_type == OxideMoveType::EnPassantCapture {
        en_passant_victim(m.source(), m.target()) == c
    } else {
        m.move_type.captures() && m.target() == c
    }
}

/// Whether the move puts a piece between the sliding piece on `c` and the
/// king on `k`.
pub open spec fn interposes(pos: OxidePosition, m: OxideMove, c: int, k: int) -> bool {
    is_slider(pos.sided_at(c).kind()) && strictly_between(c, k, m.target())
}

/// A check is met by the king, by taking the piece that gives it, or by
/// going between: a move that leaves the king safe and is no move of a king
/// takes the piece that attacks the king or puts a piece between the two.
pub proof fn lemma_check_is_met(pos: OxidePosition, m: OxideMove, c: int, k: int)
    requires
        pos.wf(),
        can_place(pos, m),
        is_safe_move(pos, m),
        pos.sided_at(m.source()).kind() != OxidePiece::King,
        holds_side(pos, pos.mover().other(), c),
        pos.king_at(pos.mover(), k),
        square_attacks(pos, c, k),
    ensures
        takes(m, c) || interposes(pos, m, c, k),
{
    lemma_moved_exists(pos, m);
    let after = moved(pos, m);
    let side = pos.mover();
    let source = m.source();
    let target = m.target();
    lemma_square_of_index(m.simple_move.from);
    lemma_square_of_index(m.simple_move.to);
    lemma_with_side_round_trip(pos.sided_at(source));
    lemma_position_occupancy(pos);
    lemma_position_occupancy(after);
    if !takes(m, c) {
        let piece = pos.sided_at(c);
        let kind = piece.kind();
        let all = pos.occupancy();
        let left = after.occupancy();
        assert(after.sided_at(c) == piece_after(pos, m, c));
        assert(after.sided_at(k) == piece_after(pos, m, k));
        assert(after.sided_at(c) == piece);
        assert(after.king_at(side, k));
        assert(holds_side(after, side.other(), c));
        if square_attacks(after, c, k) {
            assert(attacks_king(after, side, c));
            assert(holds_side(after, side.other(), c) && attacks_king(after, side, c));
        }
        assert(!square_attacks(after, c, k));
        assert(is_slider(kind));
        lemma_bit_not(all);
        lemma_bit_not(left);
        lemma_slider_hits(kind, c, all, k);
        let dir = choose|dir: Direction| slides_in(kind, dir) && #[trigger] ray_hits(single(c), !all, k, dir);
        lemma_ray_path(c, !all, k, dir);
        lemma_slider_hits(kind, c, left, k);
        assert(!ray_hits(single(c), !left, k, dir));
        lemma_ray_path(c, !left, k, dir);
        let j0 = choose|j: int| #[trigger] passes(c, k, j, dir) && !bit(!left, j);
        assert(bit(!all, j0));
        assert(after.sided_at(j0) == piece_after(pos, m, j0));
        assert(j0 == target);
        lemma_between_on_ray(c, k, target, dir);
    }
}

/// A piece that stands between a sliding piece and a square hides the
/// square from the sliding piece.
pub proof fn lemma_piece_between_hides(pos: OxidePosition, c: int, k: int, j: int)
    requires
        pos.wf(),
        is_slider(pos.sided_at(c).kind()),
        strictly_between(c, k, j),
        pos.sided_at(j) != OxideSidedPiece::Empty,
    ensures
        !square_attacks(pos, c, k),
{
    let kind = pos.sided_at(c).kind();
    let all = pos.occupancy();
    lemma_position_occupancy(pos);
    lemma_bit_not(all);
    lemma_slider_hits(kind, c, all, k);
    if square_attacks(pos, c, k) {
        let dir = choose|dir: Direction| slides_in(kind, dir) && #[trigger] ray_hits(single(c), !all, k, dir);
        lemma_ray_path(c, !all, k, dir);
        lemma_between_on_ray(c, k, j, dir);
        assert(passes(c, k, j, dir));
    }
}

/// A generated move that takes one of two pieces that attack a king does
/// not go between the other and the king.
pub proof fn lemma_taking_is_not_going_between(pos: OxidePosition, m: OxideMove, taken: int, c: int, k: int)
    requires
        pos.wf(),
        is_pseudo_legal(pos, m),
        can_place(pos, m),
        takes(m, taken),
        holds_side(pos, pos.mover().other(), taken),
        pos.king_at(pos.mover(), k),
        square_attacks(pos, taken, k),
        square_attacks(pos, c, k),
    ensures
        !interposes(pos, m, c, k),
{
    let source = m.source();
    let target = m.target();
    let side = pos.mover();
    lemma_square_of_index(m.simple_move.from);
    lemma_square_of_index(m.simple_move.to);
    if interposes(pos, m, c, k) {
        if m.move_type == OxideMoveType::EnPassantCapture {
            assert(follows_pawn_rule(pos, m));
            lemma_with_side_round_trip(pos.sided_at(taken));
            lemma_bit_single(taken as u64);
            if steps(source, target, pawn_west(side)) {
                lemma_step_coordinates(target, pawn_west(side));
            } else {
                lemma_step_coordinates(target, pawn_east(side));
            }
            if step_hits(single(taken), k, pawn_west(side.other())) {
                lemma_step_coordinates(k, pawn_west(side.other()));
            } else {
                lemma_step_coordinates(k, pawn_east(side.other()));
            }
            assert(false);
        } else {
            lemma_piece_between_hides(pos, c, k, target);
        }
    }
}

/// A double check is met by the king alone: where two pieces attack one
/// king of the side to move, every generated move that leaves the king safe
/// is a move of a king.
pub proof fn lemma_double_check_moves_the_king(pos: OxidePosition, m: OxideMove, c: int, d: int, k: int)
    requires
        pos.wf(),
        is_pseudo_legal(pos, m),
        is_safe_move(pos, m),
        c != d,
        holds_side(pos, pos.mover().other(), c),
        holds_side(pos, pos.mover().other(), d),
        pos.king_at(pos.mover(), k),
        square_attacks(pos, c, k),
        square_attacks(pos, d, k),
    ensures
        pos.sided_at(m.source()).kind() == OxidePiece::King,
{
    lemma_generated_moves_follow_the_rules(pos, m);
    lemma_pseudo_moves_can_be_placed(pos, true);
    let source = m.source();
    let target = m.target();
    lemma_square_of_index(m.simple_move.from);
    lemma_square_of_index(m.simple_move.to);
    if pos.sided_at(source).kind() != OxidePiece::King {
        lemma_check_is_met(pos, m, c, k);
        lemma_check_is_met(pos, m, d, k);
        if interposes(pos, m, c, k) && interposes(pos, m, d, k) {
            lemma_one_way_in(c, d, k, target);
            if strictly_between(c, k, d) {
                lemma_piece_between_hides(pos, c, k, d);
            } else {
                lemma_piece_between_hides(pos, d, k, c);
            }
        } else if interposes(pos, m, c, k) {
            lemma_taking_is_not_going_between(pos, m, d, c, k);
        } else if interposes(pos, m, d, k) {
            lemma_taking_is_not_going_between(pos, m, c, d, k);
        }
    }
}

/// No castle meets a check: where the king of the side to move is attacked,
/// no legal move is a castle.
pub proof fn lemma_no_castle_out_of_check(pos: OxidePosition, m: OxideMove)
    requires
        pos.wf(),
        king_attacked(pos, pos.mover()),
        legal_moves_of(pos).contains(m),
    ensures
        !is_castle(m.move_type),
{
    crate::gather::lemma_kept_is_listed(pseudo_moves(pos, false), safe_on(pos), m);
    lemma_generated_moves_follow_the_rules(pos, m);
}

} // verus!
