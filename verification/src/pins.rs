//! Pinned pieces and the safety of the king.
//!
//! Where the king is not attacked, a move of another piece leaves it safe
//! unless the piece is pinned and leaves the line of the pin. The three
//! laws of this module say so: a piece that is not pinned is free to go, a
//! pinned piece that leaves its line uncovers the king, and a pinned piece
//! that stays on its line does not. The test of the legal moves rests on the
//! first of them: it makes a move on a copy of the board only where that
//! law does not settle the question.
use vstd::prelude::*;
use crate::attacks::{knight_hits, pawn_east, pawn_forward, pawn_west, piece_hits};
use crate::bitboard::ray_hits;
use crate::bits::{bit, file_of, lemma_bit_and, lemma_bit_not, lemma_bit_single, on_board, rank_of};
use crate::chess_move::{OxideMove, OxideMoveType};
use crate::generated::{
    follows_pawn_rule, follows_piece_rule, is_pseudo_legal, lemma_generated_moves_follow_the_rules,
    lemma_pseudo_moves_can_be_placed, steps,
};
use crate::line::{
    lemma_square_coordinates, lemma_step_coordinates, lies_towards, on_line, same_anti_diagonal, same_diagonal,
    same_file, same_rank,
};
use crate::movegen::king_home;
use crate::paths::{
    lemma_attacks_with_fewer, lemma_beside_the_ray, lemma_ray_is_a_line, lemma_ray_path, lemma_slider_hits, passes,
    slides_in,
};
use crate::piece::{OxidePiece, OxideSidedPiece, lemma_with_side_round_trip};
use crate::position::{OxidePosition, lemma_position_occupancy};
use crate::rays::{Direction, step_from};
use crate::rules::{
    attacks_king, attacks_king_through, blocks, can_place, holds_side, is_moved, is_safe_move, is_slider,
    king_attacked, lemma_moved_exists, moved, piece_after, piece_attacks, shields, single, square_attacks,
};
use crate::square::{lemma_square_of, lemma_square_of_index};

verus! {

/// Whether the move is one of a piece that is free to go: the king of the
/// side to move is not attacked, the piece is no king and shields no king
/// of its side, and the move is no en-passant capture.
pub open spec fn moves_freely(pos: OxidePosition, m: OxideMove) -> bool {
    &&& !king_attacked(pos, pos.mover())
    &&& pos.sided_at(m.source()).kind() != OxidePiece::King
    &&& m.move_type != OxideMoveType::EnPassantCapture
    &&& !blocks(pos, pos.mover(), m.source())
}

/// A piece that is free to go leaves its king safe wherever it goes: where
/// the king is not attacked, a move of a piece that is not pinned, other
/// than a move of the king or an en-passant capture, uncovers no attack on
/// the king.
pub proof fn lemma_free_piece_leaves_king_safe(pos: OxidePosition, m: OxideMove)
    requires
        pos.wf(),
        can_place(pos, m),
        moves_freely(pos, m),
    ensures
        is_safe_move(pos, m),
{
    lemma_moved_exists(pos, m);
    let after = moved(pos, m);
    let side = pos.mover();
    let source = m.source();
    let target = m.target();
    lemma_square_of_index(m.simple_move.from);
    lemma_square_of_index(m.simple_move.to);
    lemma_with_side_round_trip(pos.sided_at(source));
    lemma_position_occupancy(pos);
    lemma_position_occupancy(after);
    assert(is_moved(pos, m, after));
    if king_attacked(after, side) {
        let from = choose|from: int| #[trigger]
            holds_side(after, side.other(), from) && attacks_king(after, side, from);
        let k = choose|k: int| #[trigger] after.king_at(side, k) && square_attacks(after, from, k);
        assert(after.sided_at(from) == piece_after(pos, m, from));
        assert(after.sided_at(k) == piece_after(pos, m, k));
        assert(after.sided_at(target) == piece_after(pos, m, target));
        let piece = pos.sided_at(from);
        assert(after.sided_at(from) == piece);
        assert(holds_side(pos, side.other(), from));
        assert(pos.king_at(side, k));
        assert(k != target && k != source);
        let through = pos.occupancy() & !single(source);
        let kind = piece.kind();
        assert(piece_attacks(piece, from, after.occupancy(), k));
        if !square_attacks(pos, from, k) {
            assert(is_slider(kind));
            assert(piece_hits(kind, single(from), after.occupancy(), k));
            assert forall|j: int| bit(through, j) implies bit(after.occupancy(), j) by {
                lemma_bit_single(source as u64);
                lemma_bit_not(single(source));
                lemma_bit_and(pos.occupancy(), !single(source));
                assert(after.sided_at(j) == piece_after(pos, m, j));
            }
            lemma_attacks_with_fewer(kind, single(from), after.occupancy(), through, k);
            assert(piece_attacks(piece, from, through, k));
            assert(attacks_king_through(pos, side, piece, from, through));
            if attacks_king_through(pos, side, piece, from, pos.occupancy()) {
                let other = choose|other: int| #[trigger]
                    pos.king_at(side, other) && piece_attacks(piece, from, pos.occupancy(), other);
                assert(square_attacks(pos, from, other));
                assert(attacks_king(pos, side, from));
                assert(holds_side(pos, side.other(), from) && attacks_king(pos, side, from));
            }
            assert(shields(pos, side, from, source));
            assert(blocks(pos, side, source));
        } else {
            assert(attacks_king(pos, side, from));
            assert(holds_side(pos, side.other(), from) && attacks_king(pos, side, from));
        }
    }
}

/// A pinned piece that leaves the line of the pin leaves its king attacked:
/// a move of a piece that shields a king of its side, to a square that is on
/// no line with it and a king, is not safe. (The king itself and the
/// en-passant capture are left out.)
pub proof fn lemma_pinned_piece_stays_on_its_line(pos: OxidePosition, m: OxideMove)
    requires
        pos.wf(),
        can_place(pos, m),
        pos.sided_at(m.source()).kind() != OxidePiece::King,
        m.move_type != OxideMoveType::EnPassantCapture,
        blocks(pos, pos.mover(), m.source()),
        forall|k: int| pos.king_at(pos.mover(), k) ==> !on_line(m.source(), m.target(), k),
    ensures
        !is_safe_move(pos, m),
{
    lemma_moved_exists(pos, m);
    let after = moved(pos, m);
    let side = pos.mover();
    let source = m.source();
    let target = m.target();
    lemma_square_of_index(m.simple_move.from);
    lemma_square_of_index(m.simple_move.to);
    lemma_with_side_round_trip(pos.sided_at(source));
    lemma_position_occupancy(pos);
    lemma_position_occupancy(after);
    let s = choose|s: int| #[trigger] shields(pos, side, s, source);
    let piece = pos.sided_at(s);
    let kind = piece.kind();
    let all = pos.occupancy();
    let through = all & !single(source);
    let left = after.occupancy();
    let k = choose|k: int| #[trigger] pos.king_at(side, k) && piece_attacks(piece, s, through, k);
    lemma_bit_single(source as u64);
    lemma_bit_not(single(source));
    lemma_bit_and(all, !single(source));
    lemma_bit_not(through);
    lemma_bit_not(all);
    lemma_bit_not(left);
    lemma_slider_hits(kind, s, through, k);
    let dir = choose|dir: Direction| slides_in(kind, dir) && #[trigger] ray_hits(single(s), !through, k, dir);
    lemma_ray_path(s, !through, k, dir);
    assert(!piece_attacks(piece, s, all, k));
    lemma_slider_hits(kind, s, all, k);
    assert(!ray_hits(single(s), !all, k, dir));
    lemma_ray_path(s, !all, k, dir);
    let j0 = choose|j: int| #[trigger] passes(s, k, j, dir) && !bit(!all, j);
    assert(bit(!through, j0));
    assert(j0 == source);
    assert(!on_line(source, target, k));
    if target == s || passes(s, k, target, dir) {
        lemma_ray_is_a_line(s, k, source, target, dir);
    }
    assert forall|j: int| #[trigger] passes(s, k, j, dir) implies bit(!left, j) by {
        assert(after.sided_at(j) == piece_after(pos, m, j));
        assert(bit(!through, j));
    }
    lemma_ray_path(s, !left, k, dir);
    lemma_slider_hits(kind, s, left, k);
    assert(piece_hits(kind, single(s), left, k));
    assert(after.sided_at(s) == piece_after(pos, m, s));
    assert(after.sided_at(k) == piece_after(pos, m, k));
    assert(after.king_at(side, k) && square_attacks(after, s, k));
    assert(holds_side(after, side.other(), s) && attacks_king(after, side, s));
}

/// Whether the way from square `a` to square `t` in direction `dir` is
/// free: `t` lies in that direction, and no piece stands between the two.
pub open spec fn way_is_free(pos: OxidePosition, a: int, t: int, dir: Direction) -> bool {
    lies_towards(a, t, dir) && t != a && forall|j: int|
        #[trigger] passes(a, t, j, dir) ==> pos.sided_at(j) == OxideSidedPiece::Empty
}

/// Whether the squares `a` and `t` share no rank, no file and no diagonal.
pub open spec fn shares_no_line(a: int, t: int) -> bool {
    a != t && !same_rank(a, t) && !same_file(a, t) && !same_diagonal(a, t) && !same_anti_diagonal(a, t)
}

/// One step leads over no square.
pub proof fn lemma_step_is_a_free_way(pos: OxidePosition, a: int, t: int, dir: Direction)
    requires
        steps(a, t, dir),
    ensures
        way_is_free(pos, a, t, dir),
{
    lemma_step_coordinates(t, dir);
    assert forall|j: int| #[trigger] passes(a, t, j, dir) implies pos.sided_at(j) == OxideSidedPiece::Empty by {
        if file_of(j) == file_of(a) && rank_of(j) == rank_of(a) {
            lemma_square_coordinates(j, a);
        }
        if file_of(j) == file_of(t) && rank_of(j) == rank_of(t) {
            lemma_square_coordinates(j, t);
        }
    }
}

/// A knight jumps to a square with which it shares no line.
pub proof fn lemma_knight_leaves_its_lines(a: int, t: int)
    requires
        on_board(a),
        knight_hits(single(a), t),
    ensures
        shares_no_line(a, t),
{
    lemma_bit_single(a as u64);
}

/// A generated move that is no move of a king goes a free way in one of the
/// eight directions, or is a jump of a knight to a square that shares no
/// line with its own.
pub proof fn lemma_generated_move_goes_a_free_way(pos: OxidePosition, m: OxideMove)
    requires
        pos.wf(),
        is_pseudo_legal(pos, m),
        pos.sided_at(m.source()).kind() != OxidePiece::King,
    ensures
        shares_no_line(m.source(), m.target()) || exists|dir: Direction| #[trigger]
            way_is_free(pos, m.source(), m.target(), dir),
{
    let source = m.source();
    let target = m.target();
    let side = pos.mover();
    lemma_square_of_index(m.simple_move.from);
    lemma_square_of_index(m.simple_move.to);
    lemma_position_occupancy(pos);
    if follows_piece_rule(pos, m) {
        let kind = pos.sided_at(source).kind();
        if kind == OxidePiece::Knight {
            lemma_knight_leaves_its_lines(source, target);
        } else {
            lemma_with_side_round_trip(pos.sided_at(source));
            assert(is_slider(kind));
            lemma_slider_hits(kind, source, pos.occupancy(), target);
            let dir = choose|dir: Direction|
                slides_in(kind, dir) && #[trigger] ray_hits(single(source), !pos.occupancy(), target, dir);
            lemma_ray_path(source, !pos.occupancy(), target, dir);
            lemma_bit_not(pos.occupancy());
            assert(way_is_free(pos, source, target, dir));
        }
    } else if follows_pawn_rule(pos, m) {
        let forward = pawn_forward(side);
        if m.move_type == OxideMoveType::DoublePawnPush {
            let middle = step_from(target, forward);
            lemma_step_coordinates(target, forward);
            lemma_step_coordinates(middle, forward);
            assert forall|j: int| #[trigger] passes(source, target, j, forward) implies pos.sided_at(j)
                == OxideSidedPiece::Empty by {
                if file_of(j) == file_of(middle) && rank_of(j) == rank_of(middle) {
                    lemma_square_coordinates(j, middle);
                }
                if file_of(j) == file_of(source) && rank_of(j) == rank_of(source) {
                    lemma_square_coordinates(j, source);
                }
                if file_of(j) == file_of(target) && rank_of(j) == rank_of(target) {
                    lemma_square_coordinates(j, target);
                }
            }
            assert(way_is_free(pos, source, target, forward));
        } else if steps(source, target, forward) {
            lemma_step_is_a_free_way(pos, source, target, forward);
        } else if steps(source, target, pawn_west(side)) {
            lemma_step_is_a_free_way(pos, source, target, pawn_west(side));
        } else {
            lemma_step_is_a_free_way(pos, source, target, pawn_east(side));
        }
    } else {
        lemma_square_of(king_home(side));
    }
}

/// A piece that moves along a line with its king leaves the king safe:
/// where the king is not attacked, a generated move to a square that is on
/// a line with the start square and every king of the side to move, other
/// than a move of the king or an en-passant capture, uncovers no attack.
pub proof fn lemma_move_along_the_line_is_safe(pos: OxidePosition, m: OxideMove)
    requires
        pos.wf(),
        is_pseudo_legal(pos, m),
        !king_attacked(pos, pos.mover()),
        pos.sided_at(m.source()).kind() != OxidePiece::King,
        m.move_type != OxideMoveType::EnPassantCapture,
        forall|k: int| pos.king_at(pos.mover(), k) ==> on_line(m.source(), m.target(), k),
    ensures
        can_place(pos, m),
        is_safe_move(pos, m),
{
    lemma_generated_moves_follow_the_rules(pos, m);
    lemma_pseudo_moves_can_be_placed(pos, true);
    lemma_moved_exists(pos, m);
    lemma_generated_move_goes_a_free_way(pos, m);
    let after = moved(pos, m);
    let side = pos.mover();
    let source = m.source();
    let target = m.target();
    lemma_square_of_index(m.simple_move.from);
    lemma_square_of_index(m.simple_move.to);
    lemma_with_side_round_trip(pos.sided_at(source));
    lemma_position_occupancy(pos);
    lemma_position_occupancy(after);
    if king_attacked(after, side) {
        let from = choose|from: int| #[trigger]
            holds_side(after, side.other(), from) && attacks_king(after, side, from);
        let k = choose|k: int| #[trigger] after.king_at(side, k) && square_attacks(after, from, k);
        assert(after.sided_at(from) == piece_after(pos, m, from));
        assert(after.sided_at(k) == piece_after(pos, m, k));
        assert(after.sided_at(target) == piece_after(pos, m, target));
        let piece = pos.sided_at(from);
        let kind = piece.kind();
        let all = pos.occupancy();
        let left = after.occupancy();
        assert(after.sided_at(from) == piece);
        assert(holds_side(pos, side.other(), from));
        assert(pos.king_at(side, k));
        assert(k != target && k != source);
        assert(on_line(source, target, k));
        assert(!shares_no_line(source, target));
        let way = choose|way: Direction| #[trigger] way_is_free(pos, source, target, way);
        if square_attacks(pos, from, k) {
            assert(attacks_king(pos, side, from));
            assert(holds_side(pos, side.other(), from) && attacks_king(pos, side, from));
        } else {
            assert(is_slider(kind));
            lemma_bit_not(all);
            lemma_bit_not(left);
            lemma_slider_hits(kind, from, left, k);
            let dir = choose|dir: Direction|
                slides_in(kind, dir) && #[trigger] ray_hits(single(from), !left, k, dir);
            lemma_ray_path(from, !left, k, dir);
            lemma_slider_hits(kind, from, all, k);
            assert(!ray_hits(single(from), !all, k, dir));
            lemma_ray_path(from, !all, k, dir);
            let j0 = choose|j: int| #[trigger] passes(from, k, j, dir) && !bit(!all, j);
            assert(bit(!left, j0));
            assert(after.sided_at(j0) == piece_after(pos, m, j0));
            assert(j0 == source);
            if passes(from, k, target, dir) {
                assert(bit(!left, target));
            }
            lemma_beside_the_ray(from, k, source, target, dir, way);
            if passes(source, target, from, way) {
                assert(pos.sided_at(from) == OxideSidedPiece::Empty);
            } else {
                assert(pos.sided_at(k) == OxideSidedPiece::Empty);
            }
        }
    }
}

/// The test of a generated move by the pins alone: where the side to move
/// has one king, which is not attacked, a generated move other than a move
/// of the king or an en-passant capture leaves the king safe unless the
/// piece is pinned and goes to a square that is not on a line with its own
/// square and the king.
pub proof fn lemma_pins_decide(pos: OxidePosition, m: OxideMove, king: int)
    requires
        pos.wf(),
        is_pseudo_legal(pos, m),
        !king_attacked(pos, pos.mover()),
        pos.sided_at(m.source()).kind() != OxidePiece::King,
        m.move_type != OxideMoveType::EnPassantCapture,
        forall|k: int| pos.king_at(pos.mover(), k) <==> k == king,
    ensures
        is_safe_move(pos, m) == !(blocks(pos, pos.mover(), m.source()) && !on_line(m.source(), m.target(), king)),
{
    lemma_generated_moves_follow_the_rules(pos, m);
    lemma_pseudo_moves_can_be_placed(pos, true);
    if !blocks(pos, pos.mover(), m.source()) {
        lemma_free_piece_leaves_king_safe(pos, m);
    } else if on_line(m.source(), m.target(), king) {
        lemma_move_along_the_line_is_safe(pos, m);
    } else {
        lemma_pinned_piece_stays_on_its_line(pos, m);
    }
}

} // verus!
