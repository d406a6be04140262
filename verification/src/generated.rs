//! What holds of the generated moves: their pieces can be placed, they are
//! exactly the moves that the rules of movement allow, and none of them is
//! listed twice.
use vstd::prelude::*;
use crate::attacks::{pawn_east, pawn_forward, pawn_west, piece_hits};
use crate::bits::{bit, on_board, rank_of};
use crate::chess_move::{OxideMove, OxideMoveType};
use crate::gather::{
    gather, lemma_concat_holds, lemma_gather_holds, lemma_gather_len, lemma_gather_member,
    lemma_concat_no_duplicates, lemma_gather_no_duplicates, lemma_in_concat,
};
use crate::movegen::{
    castle_move, castle_moves, castle_right, en_passant_to, is_en_passant_target, is_free, is_prey,
    is_target, king_home, may_castle, moves_of_piece, moves_of_piece_to, moves_of_piece_within,
    own_pawn, pawn_advances,
    pawn_captures_to, pawn_doubles_to, pawn_move_to, pawn_moves, pawn_moves_within, pawn_passes,
    pawn_promotions,
    pawn_pushes_to, pawn_takes, piece_moves, piece_moves_within, piece_squares, piece_targets,
    piece_targets_within, promotion_rank,
    promotions_to, pseudo_moves, pseudo_moves_within, quiet_or_capture, start_rank, within,
};
use crate::piece::{OxidePiece, OxideSidedPiece};
use crate::position::OxidePosition;
use crate::rays::{Direction, has_step_from, step_from};
use crate::rules::{can_place, en_passant_victim, is_castle, single};
use crate::side::OxideSide;
use crate::square::{lemma_square_of, lemma_square_of_index, square_of};

verus! {

/// Every move of the pieces of one kind starts on a square with such a
/// piece of the side to move, ends on a square that the piece attacks and
/// may move to, and is a capture exactly where that square holds a piece.
pub proof fn lemma_piece_moves(pos: OxidePosition, kind: OxidePiece, m: OxideMove)
    requires
        pos.wf(),
        kind != OxidePiece::Empty,
        kind != OxidePiece::Pawn,
        piece_moves(pos, kind).contains(m),
    ensures
        can_place(pos, m),
        pos.sided_at(m.source()) == kind.with_side(pos.mover()),
        piece_hits(kind, single(m.source()), pos.occupancy(), m.target()),
        is_target(pos, m.target()),
        m.move_type == OxideMoveType::Capture || m.move_type == OxideMoveType::Quiet,
{
    lemma_gather_member(piece_squares(pos, kind), moves_of_piece(pos, kind), 64, m);
    let from = choose|i: int|
        0 <= i < 64 && #[trigger] piece_squares(pos, kind)(i) && moves_of_piece(pos, kind)(i).contains(m);
    lemma_gather_member(piece_targets(pos, kind, from), moves_of_piece_to(pos.occupancy(), from), 64, m);
    let to = choose|i: int|
        0 <= i < 64 && #[trigger] piece_targets(pos, kind, from)(i) && moves_of_piece_to(
            pos.occupancy(),
            from,
        )(i).contains(m);
    assert(seq![quiet_or_capture(pos.occupancy(), from, to)].contains(m));
    assert(m == quiet_or_capture(pos.occupancy(), from, to));
    lemma_square_of(from);
    lemma_square_of(to);
    crate::position::lemma_position_occupancy(pos);
}

/// The moves of the pieces of one kind to the squares of a set are their
/// moves that end on a square of the set.
pub proof fn lemma_piece_moves_within(pos: OxidePosition, kind: OxidePiece, targets: u64, m: OxideMove)
    requires
        pos.wf(),
    ensures
        piece_moves_within(pos, kind, targets).contains(m) == (piece_moves(pos, kind).contains(m) && bit(
            targets,
            m.target(),
        )),
{
    let squares = piece_squares(pos, kind);
    let occupied = pos.occupancy();
    if piece_moves_within(pos, kind, targets).contains(m) {
        lemma_gather_member(squares, moves_of_piece_within(pos, kind, targets), 64, m);
        let from = choose|i: int|
            0 <= i < 64 && #[trigger] squares(i) && moves_of_piece_within(pos, kind, targets)(i).contains(m);
        let within = piece_targets_within(pos, kind, from, targets);
        lemma_gather_member(within, moves_of_piece_to(occupied, from), 64, m);
        let to = choose|i: int| 0 <= i < 64 && #[trigger] within(i) && moves_of_piece_to(occupied, from)(i).contains(m);
        assert(seq![quiet_or_capture(occupied, from, to)].contains(m));
        lemma_square_of(to);
        assert(piece_targets(pos, kind, from)(to));
        lemma_gather_holds(piece_targets(pos, kind, from), moves_of_piece_to(occupied, from), 64, to, m);
        assert(moves_of_piece(pos, kind)(from).contains(m));
        lemma_gather_holds(squares, moves_of_piece(pos, kind), 64, from, m);
    }
    if piece_moves(pos, kind).contains(m) && bit(targets, m.target()) {
        lemma_gather_member(squares, moves_of_piece(pos, kind), 64, m);
        let from = choose|i: int| 0 <= i < 64 && #[trigger] squares(i) && moves_of_piece(pos, kind)(i).contains(m);
        let all = piece_targets(pos, kind, from);
        lemma_gather_member(all, moves_of_piece_to(occupied, from), 64, m);
        let to = choose|i: int| 0 <= i < 64 && #[trigger] all(i) && moves_of_piece_to(occupied, from)(i).contains(m);
        assert(seq![quiet_or_capture(occupied, from, to)].contains(m));
        lemma_square_of(to);
        assert(piece_targets_within(pos, kind, from, targets)(to));
        lemma_gather_holds(
            piece_targets_within(pos, kind, from, targets),
            moves_of_piece_to(occupied, from),
            64,
            to,
            m,
        );
        assert(moves_of_piece_within(pos, kind, targets)(from).contains(m));
        lemma_gather_holds(squares, moves_of_piece_within(pos, kind, targets), 64, from, m);
    }
}

/// A move is in a list made of two lists exactly if it is in one of them.
pub proof fn lemma_concat_contains(a: Seq<OxideMove>, b: Seq<OxideMove>, m: OxideMove)
    ensures
        (a + b).contains(m) == (a.contains(m) || b.contains(m)),
{
    if (a + b).contains(m) {
        lemma_in_concat(a, b, m);
    }
    if a.contains(m) || b.contains(m) {
        lemma_concat_holds(a, b, m);
    }
}

/// Of a list made target by target, the part for the targets of a set holds
/// the moves of the list that end on a square of the set.
pub proof fn lemma_gather_within(
    wanted: spec_fn(int) -> bool,
    each: spec_fn(int) -> Seq<OxideMove>,
    targets: u64,
    m: OxideMove,
)
    requires
        forall|to: int, x: OxideMove| 0 <= to < 64 && (#[trigger] each(to)).contains(x) ==> #[trigger] x.target() == to,
    ensures
        gather(within(wanted, targets), each, 64).contains(m) == (gather(wanted, each, 64).contains(m) && bit(
            targets,
            m.target(),
        )),
{
    let cut = within(wanted, targets);
    if gather(cut, each, 64).contains(m) {
        lemma_gather_member(cut, each, 64, m);
        let to = choose|i: int| 0 <= i < 64 && #[trigger] cut(i) && each(i).contains(m);
        assert(m.target() == to);
        lemma_gather_holds(wanted, each, 64, to, m);
    }
    if gather(wanted, each, 64).contains(m) && bit(targets, m.target()) {
        lemma_gather_member(wanted, each, 64, m);
        let to = choose|i: int| 0 <= i < 64 && #[trigger] wanted(i) && each(i).contains(m);
        assert(m.target() == to);
        assert(cut(to));
        lemma_gather_holds(cut, each, 64, to, m);
    }
}

/// A pawn move that is made for a target square ends on that square.
pub proof fn lemma_pawn_move_ends_on_its_target(back: int, kind: OxideMoveType, capture: bool)
    ensures
        forall|to: int, x: OxideMove|
            0 <= to < 64 && (#[trigger] pawn_move_to(back, kind)(to)).contains(x) ==> #[trigger] x.target() == to,
        forall|to: int, x: OxideMove|
            0 <= to < 64 && (#[trigger] promotions_to(back, capture)(to)).contains(x) ==> #[trigger] x.target()
                == to,
{
    assert forall|to: int, x: OxideMove|
        0 <= to < 64 && (#[trigger] pawn_move_to(back, kind)(to)).contains(x) implies #[trigger] x.target()
        == to by {
        lemma_square_of(to);
        let list = pawn_move_to(back, kind)(to);
        let k = choose|k: int| 0 <= k < list.len() && list[k] == x;
        assert(x == list[0]);
    }
    assert forall|to: int, x: OxideMove|
        0 <= to < 64 && (#[trigger] promotions_to(back, capture)(to)).contains(x) implies #[trigger] x.target()
        == to by {
        lemma_square_of(to);
        let list = promotions_to(back, capture)(to);
        let k = choose|k: int| 0 <= k < list.len() && list[k] == x;
        assert(x == list[0] || x == list[1] || x == list[2] || x == list[3]);
    }
}

/// The moves of the pawns onto the squares of a set are their moves that
/// end on a square of the set.
pub proof fn lemma_pawn_moves_within(pos: OxidePosition, targets: u64, m: OxideMove)
    ensures
        pawn_moves_within(pos, targets).contains(m) == (pawn_moves(pos).contains(m) && bit(targets, m.target())),
{
    let side = pos.mover();
    let west = pawn_west(side).delta();
    let east = pawn_east(side).delta();
    let forward = pawn_forward(side).delta();
    lemma_pawn_move_ends_on_its_target(west, OxideMoveType::Capture, true);
    lemma_pawn_move_ends_on_its_target(east, OxideMoveType::Capture, true);
    lemma_pawn_move_ends_on_its_target(forward, OxideMoveType::Quiet, false);
    lemma_pawn_move_ends_on_its_target(2 * forward, OxideMoveType::DoublePawnPush, false);
    lemma_pawn_move_ends_on_its_target(west, OxideMoveType::EnPassantCapture, true);
    lemma_pawn_move_ends_on_its_target(east, OxideMoveType::EnPassantCapture, true);
    let onto1 = pawn_captures_to(pos, true, true);
    let onto2 = pawn_captures_to(pos, false, true);
    let onto3 = pawn_pushes_to(pos, true);
    let onto4 = pawn_pushes_to(pos, false);
    let onto5 = pawn_doubles_to(pos);
    let onto6 = pawn_captures_to(pos, true, false);
    let onto7 = pawn_captures_to(pos, false, false);
    let onto8 = en_passant_to(pos, true);
    let onto9 = en_passant_to(pos, false);
    let made1 = promotions_to(west, true);
    let made2 = promotions_to(east, true);
    let made3 = promotions_to(forward, false);
    let made4 = pawn_move_to(forward, OxideMoveType::Quiet);
    let made5 = pawn_move_to(2 * forward, OxideMoveType::DoublePawnPush);
    let made6 = pawn_move_to(west, OxideMoveType::Capture);
    let made7 = pawn_move_to(east, OxideMoveType::Capture);
    let made8 = pawn_move_to(west, OxideMoveType::EnPassantCapture);
    let made9 = pawn_move_to(east, OxideMoveType::EnPassantCapture);
    lemma_gather_within(onto1, made1, targets, m);
    lemma_gather_within(onto2, made2, targets, m);
    lemma_gather_within(onto3, made3, targets, m);
    lemma_gather_within(onto4, made4, targets, m);
    lemma_gather_within(onto5, made5, targets, m);
    lemma_gather_within(onto6, made6, targets, m);
    lemma_gather_within(onto7, made7, targets, m);
    lemma_gather_within(onto8, made8, targets, m);
    lemma_gather_within(onto9, made9, targets, m);
    let cut1 = gather(within(onto1, targets), made1, 64);
    let cut2 = gather(within(onto2, targets), made2, 64);
    let cut3 = gather(within(onto3, targets), made3, 64);
    let cut4 = gather(within(onto4, targets), made4, 64);
    let cut5 = gather(within(onto5, targets), made5, 64);
    let cut6 = gather(within(onto6, targets), made6, 64);
    let cut7 = gather(within(onto7, targets), made7, 64);
    let cut8 = gather(within(onto8, targets), made8, 64);
    let cut9 = gather(within(onto9, targets), made9, 64);
    let whole1 = gather(onto1, made1, 64);
    let whole2 = gather(onto2, made2, 64);
    let whole3 = gather(onto3, made3, 64);
    let whole4 = gather(onto4, made4, 64);
    let whole5 = gather(onto5, made5, 64);
    let whole6 = gather(onto6, made6, 64);
    let whole7 = gather(onto7, made7, 64);
    let whole8 = gather(onto8, made8, 64);
    let whole9 = gather(onto9, made9, 64);
    lemma_concat_contains(cut1, cut2, m);
    lemma_concat_contains(cut1 + cut2, cut3, m);
    lemma_concat_contains(cut4, cut5, m);
    lemma_concat_contains(cut6, cut7, m);
    lemma_concat_contains(cut8, cut9, m);
    lemma_concat_contains(cut1 + cut2 + cut3, cut4 + cut5, m);
    lemma_concat_contains(cut1 + cut2 + cut3 + (cut4 + cut5), cut6 + cut7, m);
    lemma_concat_contains(cut1 + cut2 + cut3 + (cut4 + cut5) + (cut6 + cut7), cut8 + cut9, m);
    lemma_concat_contains(whole1, whole2, m);
    lemma_concat_contains(whole1 + whole2, whole3, m);
    lemma_concat_contains(whole4, whole5, m);
    lemma_concat_contains(whole6, whole7, m);
    lemma_concat_contains(whole8, whole9, m);
    lemma_concat_contains(whole1 + whole2 + whole3, whole4 + whole5, m);
    lemma_concat_contains(whole1 + whole2 + whole3 + (whole4 + whole5), whole6 + whole7, m);
    lemma_concat_contains(whole1 + whole2 + whole3 + (whole4 + whole5) + (whole6 + whole7), whole8 + whole9, m);
    assert(pawn_moves_within(pos, targets) == cut1 + cut2 + cut3 + (cut4 + cut5) + (cut6 + cut7) + (cut8 + cut9));
    assert(pawn_moves(pos) == whole1 + whole2 + whole3 + (whole4 + whole5) + (whole6 + whole7) + (whole8 + whole9));
}

/// What a target mask does: the moves onto the squares of a set are the
/// moves that end on a square of the set, and the castles are kept whatever
/// the set.
pub proof fn lemma_moves_within(pos: OxidePosition, castles: bool, targets: u64, m: OxideMove)
    requires
        pos.wf(),
    ensures
        pseudo_moves_within(pos, castles, targets).contains(m) == ((pseudo_moves(pos, false).contains(m) && bit(
            targets,
            m.target(),
        )) || (castles && castle_moves(pos).contains(m))),
{
    lemma_pawn_moves_within(pos, targets, m);
    lemma_piece_moves_within(pos, OxidePiece::Knight, targets, m);
    lemma_piece_moves_within(pos, OxidePiece::Bishop, targets, m);
    lemma_piece_moves_within(pos, OxidePiece::Rook, targets, m);
    lemma_piece_moves_within(pos, OxidePiece::Queen, targets, m);
    lemma_piece_moves_within(pos, OxidePiece::King, targets, m);
    let none = Seq::<OxideMove>::empty();
    let last = if castles {
        castle_moves(pos)
    } else {
        none
    };
    let cut0 = pawn_moves_within(pos, targets);
    let cut1 = piece_moves_within(pos, OxidePiece::Knight, targets);
    let cut2 = piece_moves_within(pos, OxidePiece::Bishop, targets);
    let cut3 = piece_moves_within(pos, OxidePiece::Rook, targets);
    let cut4 = piece_moves_within(pos, OxidePiece::Queen, targets);
    let cut5 = piece_moves_within(pos, OxidePiece::King, targets);
    let whole0 = pawn_moves(pos);
    let whole1 = piece_moves(pos, OxidePiece::Knight);
    let whole2 = piece_moves(pos, OxidePiece::Bishop);
    let whole3 = piece_moves(pos, OxidePiece::Rook);
    let whole4 = piece_moves(pos, OxidePiece::Queen);
    let whole5 = piece_moves(pos, OxidePiece::King);
    lemma_concat_contains(cut0, cut1, m);
    lemma_concat_contains(cut0 + cut1, cut2, m);
    lemma_concat_contains(cut0 + cut1 + cut2, cut3, m);
    lemma_concat_contains(cut0 + cut1 + cut2 + cut3, cut4, m);
    lemma_concat_contains(cut0 + cut1 + cut2 + cut3 + cut4, cut5, m);
    lemma_concat_contains(cut0 + cut1 + cut2 + cut3 + cut4 + cut5, last, m);
    lemma_concat_contains(whole0, whole1, m);
    lemma_concat_contains(whole0 + whole1, whole2, m);
    lemma_concat_contains(whole0 + whole1 + whole2, whole3, m);
    lemma_concat_contains(whole0 + whole1 + whole2 + whole3, whole4, m);
    lemma_concat_contains(whole0 + whole1 + whole2 + whole3 + whole4, whole5, m);
    lemma_concat_contains(whole0 + whole1 + whole2 + whole3 + whole4 + whole5, none, m);
    assert(pseudo_moves_within(pos, castles, targets) == cut0 + cut1 + cut2 + cut3 + cut4 + cut5 + last);
    assert(pseudo_moves(pos, false) == whole0 + whole1 + whole2 + whole3 + whole4 + whole5 + none);
}

/// What a move of a group of pawn moves is made of.
pub proof fn lemma_pawn_group(
    wanted: spec_fn(int) -> bool,
    back: int,
    kind: OxideMoveType,
    m: OxideMove,
) -> (to: int)
    requires
        gather(wanted, pawn_move_to(back, kind), 64).contains(m),
    ensures
        0 <= to < 64,
        wanted(to),
        m == OxideMove::of(square_of(to - back), square_of(to), kind),
{
    lemma_gather_member(wanted, pawn_move_to(back, kind), 64, m);
    let to = choose|i: int| 0 <= i < 64 && #[trigger] wanted(i) && pawn_move_to(back, kind)(i).contains(m);
    assert(seq![OxideMove::of(square_of(to - back), square_of(to), kind)].contains(m));
    to
}

/// What a move of a group of promotions is made of.
pub proof fn lemma_promotion_group(wanted: spec_fn(int) -> bool, back: int, capture: bool, m: OxideMove) -> (to:
    int)
    requires
        gather(wanted, promotions_to(back, capture), 64).contains(m),
    ensures
        0 <= to < 64,
        wanted(to),
        m.simple_move.from == square_of(to - back),
        m.simple_move.to == square_of(to),
        m.move_type.promotes(),
        m.move_type.captures() == capture,
        m.move_type == OxideMoveType::of_promotion(m.move_type.promoted(), capture),
{
    lemma_gather_member(wanted, promotions_to(back, capture), 64, m);
    let to = choose|i: int| 0 <= i < 64 && #[trigger] wanted(i) && promotions_to(back, capture)(i).contains(m);
    let four = promotions_to(back, capture)(to);
    let k = choose|k: int| 0 <= k < four.len() && four[k] == m;
    assert(four[0].move_type.promotes() && four[1].move_type.promotes() && four[2].move_type.promotes()
        && four[3].move_type.promotes());
    to
}

/// The pieces of every promotion can be placed.
pub proof fn lemma_pawn_promotions(pos: OxidePosition, m: OxideMove)
    requires
        pos.wf(),
        pawn_promotions(pos).contains(m),
    ensures
        can_place(pos, m),
        m.move_type.promotes(),
{
    let side = pos.mover();
    let a = gather(pawn_captures_to(pos, true, true), promotions_to(pawn_west(side).delta(), true), 64);
    let b = gather(pawn_captures_to(pos, false, true), promotions_to(pawn_east(side).delta(), true), 64);
    let c = gather(pawn_pushes_to(pos, true), promotions_to(pawn_forward(side).delta(), false), 64);
    lemma_in_concat(a + b, c, m);
    if (a + b).contains(m) {
        lemma_in_concat(a, b, m);
        if a.contains(m) {
            let to = lemma_promotion_group(
                pawn_captures_to(pos, true, true),
                pawn_west(side).delta(),
                true,
                m,
            );
            lemma_square_of(to);
            crate::line::lemma_step_coordinates(to, pawn_west(side));
            lemma_square_of(to - pawn_west(side).delta());
        } else {
            let to = lemma_promotion_group(
                pawn_captures_to(pos, false, true),
                pawn_east(side).delta(),
                true,
                m,
            );
            lemma_square_of(to);
            crate::line::lemma_step_coordinates(to, pawn_east(side));
            lemma_square_of(to - pawn_east(side).delta());
        }
    } else {
        let to = lemma_promotion_group(pawn_pushes_to(pos, true), pawn_forward(side).delta(), false, m);
        lemma_square_of(to);
        crate::line::lemma_step_coordinates(to, pawn_forward(side));
        lemma_square_of(to - pawn_forward(side).delta());
    }
}

/// The pieces of every pawn push can be placed.
pub proof fn lemma_pawn_advances(pos: OxidePosition, m: OxideMove)
    requires
        pos.wf(),
        pawn_advances(pos).contains(m),
    ensures
        can_place(pos, m),
        m.move_type == OxideMoveType::Quiet || m.move_type == OxideMoveType::DoublePawnPush,
{
    let side = pos.mover();
    let way = pawn_forward(side);
    let forward = way.delta();
    let a = gather(pawn_pushes_to(pos, false), pawn_move_to(forward, OxideMoveType::Quiet), 64);
    let b = gather(pawn_doubles_to(pos), pawn_move_to(2 * forward, OxideMoveType::DoublePawnPush), 64);
    lemma_in_concat(a, b, m);
    if a.contains(m) {
        let to = lemma_pawn_group(pawn_pushes_to(pos, false), forward, OxideMoveType::Quiet, m);
        lemma_square_of(to);
        crate::line::lemma_step_coordinates(to, way);
        lemma_square_of(to - forward);
    } else {
        let to = lemma_pawn_group(pawn_doubles_to(pos), 2 * forward, OxideMoveType::DoublePawnPush, m);
        lemma_square_of(to);
        crate::line::lemma_step_coordinates(to, way);
        let middle = step_from(to, way);
        crate::line::lemma_step_coordinates(middle, way);
        lemma_square_of(to - 2 * forward);
        let from = to - 2 * forward;
        assert(from == step_from(middle, way));
        assert((from + to) / 2 == middle);
        assert((from + to) % 2 == 0);
    }
}

/// The pieces of every pawn capture can be placed.
pub proof fn lemma_pawn_takes(pos: OxidePosition, m: OxideMove)
    requires
        pos.wf(),
        pawn_takes(pos).contains(m),
    ensures
        can_place(pos, m),
        m.move_type == OxideMoveType::Capture,
{
    let side = pos.mover();
    let a = gather(
        pawn_captures_to(pos, true, false),
        pawn_move_to(pawn_west(side).delta(), OxideMoveType::Capture),
        64,
    );
    let b = gather(
        pawn_captures_to(pos, false, false),
        pawn_move_to(pawn_east(side).delta(), OxideMoveType::Capture),
        64,
    );
    lemma_in_concat(a, b, m);
    if a.contains(m) {
        let to = lemma_pawn_group(
            pawn_captures_to(pos, true, false),
            pawn_west(side).delta(),
            OxideMoveType::Capture,
            m,
        );
        lemma_square_of(to);
        crate::line::lemma_step_coordinates(to, pawn_west(side));
        lemma_square_of(to - pawn_west(side).delta());
    } else {
        let to = lemma_pawn_group(
            pawn_captures_to(pos, false, false),
            pawn_east(side).delta(),
            OxideMoveType::Capture,
            m,
        );
        lemma_square_of(to);
        crate::line::lemma_step_coordinates(to, pawn_east(side));
        lemma_square_of(to - pawn_east(side).delta());
    }
}

/// The pieces of every capture in passing can be placed.
pub proof fn lemma_pawn_passes(pos: OxidePosition, m: OxideMove)
    requires
        pos.wf(),
        pawn_passes(pos).contains(m),
    ensures
        can_place(pos, m),
        m.move_type == OxideMoveType::EnPassantCapture,
{
    let side = pos.mover();
    let a = gather(
        en_passant_to(pos, true),
        pawn_move_to(pawn_west(side).delta(), OxideMoveType::EnPassantCapture),
        64,
    );
    let b = gather(
        en_passant_to(pos, false),
        pawn_move_to(pawn_east(side).delta(), OxideMoveType::EnPassantCapture),
        64,
    );
    lemma_in_concat(a, b, m);
    let way = if a.contains(m) {
        pawn_west(side)
    } else {
        pawn_east(side)
    };
    let to = if a.contains(m) {
        lemma_pawn_group(
            en_passant_to(pos, true),
            pawn_west(side).delta(),
            OxideMoveType::EnPassantCapture,
            m,
        )
    } else {
        lemma_pawn_group(
            en_passant_to(pos, false),
            pawn_east(side).delta(),
            OxideMoveType::EnPassantCapture,
            m,
        )
    };
    lemma_square_of(to);
    crate::line::lemma_step_coordinates(to, way);
    crate::line::lemma_step_coordinates(to, pawn_forward(side));
    lemma_square_of(to - way.delta());
    let from = to - way.delta();
    assert(en_passant_victim(from, to) == step_from(to, pawn_forward(side)));
}

/// The pieces of every castle of the list can be placed.
pub proof fn lemma_castle_moves(pos: OxidePosition, m: OxideMove)
    requires
        pos.wf(),
        castle_moves(pos).contains(m),
    ensures
        can_place(pos, m),
        is_castle(m.move_type),
        may_castle(pos, m.move_type),
        m == castle_move(pos.mover(), m.move_type),
{
    let side = pos.mover();
    let a = if may_castle(pos, OxideMoveType::KingSideCastle) {
        seq![castle_move(side, OxideMoveType::KingSideCastle)]
    } else {
        Seq::<OxideMove>::empty()
    };
    let b = if may_castle(pos, OxideMoveType::QueenSideCastle) {
        seq![castle_move(side, OxideMoveType::QueenSideCastle)]
    } else {
        Seq::<OxideMove>::empty()
    };
    lemma_in_concat(a, b, m);
    let home = king_home(side);
    lemma_square_of(home);
    lemma_square_of(home + 2);
    lemma_square_of(home - 2);
    if a.contains(m) {
        assert(m == castle_move(side, OxideMoveType::KingSideCastle));
        let right = castle_right(side, OxideMoveType::KingSideCastle);
        assert(crate::castle::on_castle_path(right, home + 1));
        assert(crate::castle::on_castle_path(right, home + 2));
    } else {
        assert(m == castle_move(side, OxideMoveType::QueenSideCastle));
        let right = castle_right(side, OxideMoveType::QueenSideCastle);
        assert(crate::castle::on_castle_path(right, home - 1));
        assert(crate::castle::on_castle_path(right, home - 2));
    }
}

/// The pieces of every generated move can be placed on the position.
pub proof fn lemma_pseudo_moves_can_be_placed(pos: OxidePosition, castles: bool)
    requires
        pos.wf(),
    ensures
        forall|m: OxideMove| #[trigger] pseudo_moves(pos, castles).contains(m) ==> can_place(pos, m),
{
    assert forall|m: OxideMove| #[trigger] pseudo_moves(pos, castles).contains(m) implies can_place(pos, m) by {
        let pawns = pawn_moves(pos);
        let knights = piece_moves(pos, OxidePiece::Knight);
        let bishops = piece_moves(pos, OxidePiece::Bishop);
        let rooks = piece_moves(pos, OxidePiece::Rook);
        let queens = piece_moves(pos, OxidePiece::Queen);
        let kings = piece_moves(pos, OxidePiece::King);
        let castling = if castles {
            castle_moves(pos)
        } else {
            Seq::<OxideMove>::empty()
        };
        lemma_in_concat(pawns + knights + bishops + rooks + queens + kings, castling, m);
        if castling.contains(m) {
            lemma_castle_moves(pos, m);
        } else {
            lemma_in_concat(pawns + knights + bishops + rooks + queens, kings, m);
            if kings.contains(m) {
                lemma_piece_moves(pos, OxidePiece::King, m);
            } else {
                lemma_in_concat(pawns + knights + bishops + rooks, queens, m);
                if queens.contains(m) {
                    lemma_piece_moves(pos, OxidePiece::Queen, m);
                } else {
                    lemma_in_concat(pawns + knights + bishops, rooks, m);
                    if rooks.contains(m) {
                        lemma_piece_moves(pos, OxidePiece::Rook, m);
                    } else {
                        lemma_in_concat(pawns + knights, bishops, m);
                        if bishops.contains(m) {
                            lemma_piece_moves(pos, OxidePiece::Bishop, m);
                        } else {
                            lemma_in_concat(pawns, knights, m);
                            if knights.contains(m) {
                                lemma_piece_moves(pos, OxidePiece::Knight, m);
                            } else {
                                lemma_pawn_moves(pos, m);
                            }
                        }
                    }
                }
            }
        }
    }
}

/// The pieces of every pawn move can be placed.
pub proof fn lemma_pawn_moves(pos: OxidePosition, m: OxideMove)
    requires
        pos.wf(),
        pawn_moves(pos).contains(m),
    ensures
        can_place(pos, m),
{
    let a = pawn_promotions(pos);
    let b = pawn_advances(pos);
    let c = pawn_takes(pos);
    let d = pawn_passes(pos);
    lemma_in_concat(a + b + c, d, m);
    if d.contains(m) {
        lemma_pawn_passes(pos, m);
    } else {
        lemma_in_concat(a + b, c, m);
        if c.contains(m) {
            lemma_pawn_takes(pos, m);
        } else {
            lemma_in_concat(a, b, m);
            if b.contains(m) {
                lemma_pawn_advances(pos, m);
            } else {
                lemma_pawn_promotions(pos, m);
            }
        }
    }
}

/// A position has fewer generated moves than a list can hold.
pub proof fn lemma_pseudo_list_is_short(pos: OxidePosition, castles: bool)
    ensures
        pseudo_moves(pos, castles).len() <= 40000,
{
    let side = pos.mover();
    lemma_gather_len(pawn_captures_to(pos, true, true), promotions_to(pawn_west(side).delta(), true), 64, 4);
    lemma_gather_len(pawn_captures_to(pos, false, true), promotions_to(pawn_east(side).delta(), true), 64, 4);
    lemma_gather_len(pawn_pushes_to(pos, true), promotions_to(pawn_forward(side).delta(), false), 64, 4);
    lemma_gather_len(
        pawn_pushes_to(pos, false),
        pawn_move_to(pawn_forward(side).delta(), OxideMoveType::Quiet),
        64,
        1,
    );
    lemma_gather_len(
        pawn_doubles_to(pos),
        pawn_move_to(2 * pawn_forward(side).delta(), OxideMoveType::DoublePawnPush),
        64,
        1,
    );
    lemma_gather_len(
        pawn_captures_to(pos, true, false),
        pawn_move_to(pawn_west(side).delta(), OxideMoveType::Capture),
        64,
        1,
    );
    lemma_gather_len(
        pawn_captures_to(pos, false, false),
        pawn_move_to(pawn_east(side).delta(), OxideMoveType::Capture),
        64,
        1,
    );
    lemma_gather_len(
        en_passant_to(pos, true),
        pawn_move_to(pawn_west(side).delta(), OxideMoveType::EnPassantCapture),
        64,
        1,
    );
    lemma_gather_len(
        en_passant_to(pos, false),
        pawn_move_to(pawn_east(side).delta(), OxideMoveType::EnPassantCapture),
        64,
        1,
    );
    lemma_piece_list_is_short(pos, OxidePiece::Knight);
    lemma_piece_list_is_short(pos, OxidePiece::Bishop);
    lemma_piece_list_is_short(pos, OxidePiece::Rook);
    lemma_piece_list_is_short(pos, OxidePiece::Queen);
    lemma_piece_list_is_short(pos, OxidePiece::King);
}

/// The pieces of one kind have at most 64 moves each.
pub proof fn lemma_piece_list_is_short(pos: OxidePosition, kind: OxidePiece)
    ensures
        piece_moves(pos, kind).len() <= 4096,
{
    assert forall|from: int| 0 <= from < 64 implies (#[trigger] moves_of_piece(pos, kind)(from)).len() <= 64 by {
        lemma_gather_len(piece_targets(pos, kind, from), moves_of_piece_to(pos.occupancy(), from), 64, 1);
    }
    lemma_gather_len(piece_squares(pos, kind), moves_of_piece(pos, kind), 64, 64);
}

/// Whether the move is in one of the groups of which the generated moves
/// are made.
pub open spec fn in_some_group(pos: OxidePosition, castles: bool, m: OxideMove) -> bool {
    pawn_promotions(pos).contains(m) || pawn_advances(pos).contains(m) || pawn_takes(pos).contains(m)
        || pawn_passes(pos).contains(m) || piece_moves(pos, OxidePiece::Knight).contains(m)
        || piece_moves(pos, OxidePiece::Bishop).contains(m) || piece_moves(pos, OxidePiece::Rook).contains(
        m,
    ) || piece_moves(pos, OxidePiece::Queen).contains(m) || piece_moves(pos, OxidePiece::King).contains(m)
        || (castles && castle_moves(pos).contains(m))
}

/// The generated moves are exactly the moves of their groups.
pub proof fn lemma_generated_groups(pos: OxidePosition, castles: bool, m: OxideMove)
    ensures
        pseudo_moves(pos, castles).contains(m) == in_some_group(pos, castles, m),
{
    let a = pawn_promotions(pos);
    let b = pawn_advances(pos);
    let c = pawn_takes(pos);
    let d = pawn_passes(pos);
    let pawns = pawn_moves(pos);
    let knights = piece_moves(pos, OxidePiece::Knight);
    let bishops = piece_moves(pos, OxidePiece::Bishop);
    let rooks = piece_moves(pos, OxidePiece::Rook);
    let queens = piece_moves(pos, OxidePiece::Queen);
    let kings = piece_moves(pos, OxidePiece::King);
    let castling = if castles {
        castle_moves(pos)
    } else {
        Seq::<OxideMove>::empty()
    };
    if pseudo_moves(pos, castles).contains(m) {
        lemma_in_concat(pawns + knights + bishops + rooks + queens + kings, castling, m);
        if !castling.contains(m) {
            lemma_in_concat(pawns + knights + bishops + rooks + queens, kings, m);
            if !kings.contains(m) {
                lemma_in_concat(pawns + knights + bishops + rooks, queens, m);
                if !queens.contains(m) {
                    lemma_in_concat(pawns + knights + bishops, rooks, m);
                    if !rooks.contains(m) {
                        lemma_in_concat(pawns + knights, bishops, m);
                        if !bishops.contains(m) {
                            lemma_in_concat(pawns, knights, m);
                            if !knights.contains(m) {
                                lemma_in_concat(a + b + c, d, m);
                                if !d.contains(m) {
                                    lemma_in_concat(a + b, c, m);
                                    if !c.contains(m) {
                                        lemma_in_concat(a, b, m);
                                    }
                                }
                            }
                        }
                    }
                }
            }
        }
    }
    if in_some_group(pos, castles, m) {
        if a.contains(m) || b.contains(m) {
            lemma_concat_holds(a, b, m);
        }
        if (a + b).contains(m) || c.contains(m) {
            lemma_concat_holds(a + b, c, m);
        }
        if (a + b + c).contains(m) || d.contains(m) {
            lemma_concat_holds(a + b + c, d, m);
        }
        if pawns.contains(m) || knights.contains(m) {
            lemma_concat_holds(pawns, knights, m);
        }
        if (pawns + knights).contains(m) || bishops.contains(m) {
            lemma_concat_holds(pawns + knights, bishops, m);
        }
        if (pawns + knights + bishops).contains(m) || rooks.contains(m) {
            lemma_concat_holds(pawns + knights + bishops, rooks, m);
        }
        if (pawns + knights + bishops + rooks).contains(m) || queens.contains(m) {
            lemma_concat_holds(pawns + knights + bishops + rooks, queens, m);
        }
        if (pawns + knights + bishops + rooks + queens).contains(m) || kings.contains(m) {
            lemma_concat_holds(pawns + knights + bishops + rooks + queens, kings, m);
        }
        lemma_concat_holds(pawns + knights + bishops + rooks + queens + kings, castling, m);
    }
}

/// The kinds of the moves of each group: a generated castle is one of the
/// list of castles, and a generated promotion one of the list of promotions.
pub proof fn lemma_generated_kinds(pos: OxidePosition, castles: bool, m: OxideMove)
    requires
        pos.wf(),
        pseudo_moves(pos, castles).contains(m),
    ensures
        is_castle(m.move_type) ==> castles && castle_moves(pos).contains(m),
        m.move_type.promotes() ==> pawn_promotions(pos).contains(m),
{
    lemma_generated_groups(pos, castles, m);
    if pawn_promotions(pos).contains(m) {
        lemma_pawn_promotions(pos, m);
    }
    if pawn_advances(pos).contains(m) {
        lemma_pawn_advances(pos, m);
    }
    if pawn_takes(pos).contains(m) {
        lemma_pawn_takes(pos, m);
    }
    if pawn_passes(pos).contains(m) {
        lemma_pawn_passes(pos, m);
    }
    if piece_moves(pos, OxidePiece::Knight).contains(m) {
        lemma_piece_moves(pos, OxidePiece::Knight, m);
    }
    if piece_moves(pos, OxidePiece::Bishop).contains(m) {
        lemma_piece_moves(pos, OxidePiece::Bishop, m);
    }
    if piece_moves(pos, OxidePiece::Rook).contains(m) {
        lemma_piece_moves(pos, OxidePiece::Rook, m);
    }
    if piece_moves(pos, OxidePiece::Queen).contains(m) {
        lemma_piece_moves(pos, OxidePiece::Queen, m);
    }
    if piece_moves(pos, OxidePiece::King).contains(m) {
        lemma_piece_moves(pos, OxidePiece::King, m);
    }
    if castles && castle_moves(pos).contains(m) {
        lemma_castle_moves(pos, m);
    }
}

/// Every castle among the generated moves is one of the castles of the
/// list of castles.
pub proof fn lemma_generated_castle(pos: OxidePosition, m: OxideMove)
    requires
        pos.wf(),
        pseudo_moves(pos, true).contains(m),
        is_castle(m.move_type),
    ensures
        castle_moves(pos).contains(m),
{
    lemma_generated_kinds(pos, true, m);
}

/// Every move of a piece to a square that it attacks and may move to is
/// among the generated moves.
pub proof fn lemma_piece_move_generated(pos: OxidePosition, castles: bool, kind: OxidePiece, from: int, to: int)
    requires
        kind != OxidePiece::Pawn,
        kind != OxidePiece::Empty,
        on_board(from),
        on_board(to),
        pos.sided_at(from) == kind.with_side(pos.mover()),
        piece_hits(kind, single(from), pos.occupancy(), to),
        is_target(pos, to),
    ensures
        pseudo_moves(pos, castles).contains(quiet_or_capture(pos.occupancy(), from, to)),
{
    let m = quiet_or_capture(pos.occupancy(), from, to);
    assert(seq![m][0] == m);
    lemma_gather_holds(piece_targets(pos, kind, from), moves_of_piece_to(pos.occupancy(), from), 64, to, m);
    lemma_gather_holds(piece_squares(pos, kind), moves_of_piece(pos, kind), 64, from, m);
    lemma_generated_groups(pos, castles, m);
}

/// Whether the move is a move of a knight, a bishop, a rook, a queen or a
/// king of the side to move to a square that the piece attacks and that
/// holds no piece of its own side and no king: a capture where the square
/// holds a piece, a quiet move where it does not.
pub open spec fn follows_piece_rule(pos: OxidePosition, m: OxideMove) -> bool {
    let from = m.source();
    let to = m.target();
    let moving = pos.sided_at(from);
    &&& moving != OxideSidedPiece::Empty
    &&& moving.kind() != OxidePiece::Pawn
    &&& moving.owner() == pos.mover()
    &&& piece_hits(moving.kind(), single(from), pos.occupancy(), to)
    &&& is_target(pos, to)
    &&& m.move_type == (if pos.sided_at(to) != OxideSidedPiece::Empty {
        OxideMoveType::Capture
    } else {
        OxideMoveType::Quiet
    })
}

/// Whether one step in direction `dir` leads from `from` to `to`.
pub open spec fn steps(from: int, to: int, dir: Direction) -> bool {
    has_step_from(to, dir) && step_from(to, dir) == from
}

/// Whether one step of a capturing pawn of `side` leads from `from` to `to`.
pub open spec fn pawn_takes_step(side: OxideSide, from: int, to: int) -> bool {
    steps(from, to, pawn_west(side)) || steps(from, to, pawn_east(side))
}

/// Whether the move is a move of a pawn of the side to move as pawns move:
/// a push onto a free square; a push over two free squares from the start
/// rank; a capture, one step forward to the side, of a piece of the other
/// side that is no king; a capture in passing onto the en-passant square,
/// behind which a pawn of the other side stands; and each of these, but the
/// double push and the capture in passing, as a promotion exactly where the
/// pawn starts from the rank before the last.
pub open spec fn follows_pawn_rule(pos: OxidePosition, m: OxideMove) -> bool {
    let from = m.source();
    let to = m.target();
    let side = pos.mover();
    let kind = m.move_type;
    let promoting = rank_of(from) == promotion_rank(side);
    let forward = pawn_forward(side);
    own_pawn(pos, from) && (if kind == OxideMoveType::Quiet {
        !promoting && steps(from, to, forward) && is_free(pos, to)
    } else if kind == OxideMoveType::DoublePawnPush {
        rank_of(from) == start_rank(side) && has_step_from(to, forward) && steps(
            from,
            step_from(to, forward),
            forward,
        ) && is_free(pos, step_from(to, forward)) && is_free(pos, to)
    } else if kind == OxideMoveType::Capture {
        !promoting && pawn_takes_step(side, from, to) && is_prey(pos, to)
    } else if kind == OxideMoveType::EnPassantCapture {
        !promoting && pawn_takes_step(side, from, to) && is_en_passant_target(pos, to)
    } else if kind.promotes() {
        promoting && (if kind.captures() {
            pawn_takes_step(side, from, to) && is_prey(pos, to)
        } else {
            steps(from, to, forward) && is_free(pos, to)
        })
    } else {
        false
    })
}

/// Whether the move is a castle that the side to move may make: it holds
/// the right, king and rook stand on their first squares, the squares
/// between them are free, and no square on the way of the king is attacked.
pub open spec fn follows_castle_rule(pos: OxidePosition, m: OxideMove) -> bool {
    is_castle(m.move_type) && may_castle(pos, m.move_type) && m == castle_move(pos.mover(), m.move_type)
}

/// Whether the move is one that a piece of the side to move can make by
/// the rules of movement, whether or not it leaves the king safe.
pub open spec fn is_pseudo_legal(pos: OxidePosition, m: OxideMove) -> bool {
    follows_piece_rule(pos, m) || follows_pawn_rule(pos, m) || follows_castle_rule(pos, m)
}

/// A move is the move of its squares and its kind.
pub proof fn lemma_move_of_parts(m: OxideMove)
    ensures
        m == OxideMove::of(square_of(m.source()), square_of(m.target()), m.move_type),
        on_board(m.source()),
        on_board(m.target()),
{
    lemma_square_of_index(m.simple_move.from);
    lemma_square_of_index(m.simple_move.to);
}

proof fn lemma_group_follows_rule(pos: OxidePosition, m: OxideMove)
    requires
        pos.wf(),
        in_some_group(pos, true, m),
    ensures
        is_pseudo_legal(pos, m),
        pawn_promotions(pos).contains(m) || pawn_advances(pos).contains(m) || pawn_takes(pos).contains(m)
            || pawn_passes(pos).contains(m) ==> follows_pawn_rule(pos, m),
{
    let side = pos.mover();
    let west = pawn_west(side);
    let east = pawn_east(side);
    let forward = pawn_forward(side);
    if pawn_promotions(pos).contains(m) {
        let a = gather(pawn_captures_to(pos, true, true), promotions_to(west.delta(), true), 64);
        let b = gather(pawn_captures_to(pos, false, true), promotions_to(east.delta(), true), 64);
        let c = gather(pawn_pushes_to(pos, true), promotions_to(forward.delta(), false), 64);
        lemma_in_concat(a + b, c, m);
        if (a + b).contains(m) {
            lemma_in_concat(a, b, m);
            if a.contains(m) {
                let to = lemma_promotion_group(pawn_captures_to(pos, true, true), west.delta(), true, m);
                lemma_square_of(to);
                crate::line::lemma_step_coordinates(to, west);
                lemma_square_of(to - west.delta());
            } else {
                let to = lemma_promotion_group(pawn_captures_to(pos, false, true), east.delta(), true, m);
                lemma_square_of(to);
                crate::line::lemma_step_coordinates(to, east);
                lemma_square_of(to - east.delta());
            }
        } else {
            let to = lemma_promotion_group(pawn_pushes_to(pos, true), forward.delta(), false, m);
            lemma_square_of(to);
            crate::line::lemma_step_coordinates(to, forward);
            lemma_square_of(to - forward.delta());
        }
        assert(follows_pawn_rule(pos, m));
    } else if pawn_advances(pos).contains(m) {
        let a = gather(pawn_pushes_to(pos, false), pawn_move_to(forward.delta(), OxideMoveType::Quiet), 64);
        let b = gather(
            pawn_doubles_to(pos),
            pawn_move_to(2 * forward.delta(), OxideMoveType::DoublePawnPush),
            64,
        );
        lemma_in_concat(a, b, m);
        if a.contains(m) {
            let to = lemma_pawn_group(pawn_pushes_to(pos, false), forward.delta(), OxideMoveType::Quiet, m);
            lemma_square_of(to);
            crate::line::lemma_step_coordinates(to, forward);
            lemma_square_of(to - forward.delta());
        } else {
            let to = lemma_pawn_group(
                pawn_doubles_to(pos),
                2 * forward.delta(),
                OxideMoveType::DoublePawnPush,
                m,
            );
            lemma_square_of(to);
            crate::line::lemma_step_coordinates(to, forward);
            crate::line::lemma_step_coordinates(step_from(to, forward), forward);
            lemma_square_of(to - 2 * forward.delta());
        }
        assert(follows_pawn_rule(pos, m));
    } else if pawn_takes(pos).contains(m) {
        let a = gather(pawn_captures_to(pos, true, false), pawn_move_to(west.delta(), OxideMoveType::Capture), 64);
        let b = gather(pawn_captures_to(pos, false, false), pawn_move_to(east.delta(), OxideMoveType::Capture), 64);
        lemma_in_concat(a, b, m);
        if a.contains(m) {
            let to = lemma_pawn_group(pawn_captures_to(pos, true, false), west.delta(), OxideMoveType::Capture, m);
            lemma_square_of(to);
            crate::line::lemma_step_coordinates(to, west);
            lemma_square_of(to - west.delta());
        } else {
            let to = lemma_pawn_group(pawn_captures_to(pos, false, false), east.delta(), OxideMoveType::Capture, m);
            lemma_square_of(to);
            crate::line::lemma_step_coordinates(to, east);
            lemma_square_of(to - east.delta());
        }
        assert(follows_pawn_rule(pos, m));
    } else if pawn_passes(pos).contains(m) {
        let a = gather(en_passant_to(pos, true), pawn_move_to(west.delta(), OxideMoveType::EnPassantCapture), 64);
        let b = gather(en_passant_to(pos, false), pawn_move_to(east.delta(), OxideMoveType::EnPassantCapture), 64);
        lemma_in_concat(a, b, m);
        if a.contains(m) {
            let to = lemma_pawn_group(en_passant_to(pos, true), west.delta(), OxideMoveType::EnPassantCapture, m);
            lemma_square_of(to);
            crate::line::lemma_step_coordinates(to, west);
            lemma_square_of(to - west.delta());
        } else {
            let to = lemma_pawn_group(en_passant_to(pos, false), east.delta(), OxideMoveType::EnPassantCapture, m);
            lemma_square_of(to);
            crate::line::lemma_step_coordinates(to, east);
            lemma_square_of(to - east.delta());
        }
        assert(follows_pawn_rule(pos, m));
    } else if castle_moves(pos).contains(m) {
        lemma_castle_moves(pos, m);
    } else {
        crate::position::lemma_position_occupancy(pos);
        if piece_moves(pos, OxidePiece::Knight).contains(m) {
            lemma_piece_moves(pos, OxidePiece::Knight, m);
        } else if piece_moves(pos, OxidePiece::Bishop).contains(m) {
            lemma_piece_moves(pos, OxidePiece::Bishop, m);
        } else if piece_moves(pos, OxidePiece::Rook).contains(m) {
            lemma_piece_moves(pos, OxidePiece::Rook, m);
        } else if piece_moves(pos, OxidePiece::Queen).contains(m) {
            lemma_piece_moves(pos, OxidePiece::Queen, m);
        } else {
            lemma_piece_moves(pos, OxidePiece::King, m);
        }
        crate::piece::lemma_with_side_round_trip(pos.sided_at(m.source()));
        assert(follows_piece_rule(pos, m));
    }
}

proof fn lemma_pawn_rule_is_generated(pos: OxidePosition, m: OxideMove)
    requires
        pos.wf(),
        follows_pawn_rule(pos, m),
    ensures
        in_some_group(pos, true, m),
{
    let side = pos.mover();
    let from = m.source();
    let to = m.target();
    let kind = m.move_type;
    let west = pawn_west(side);
    let east = pawn_east(side);
    let forward = pawn_forward(side);
    lemma_move_of_parts(m);
    assert(seq![m][0] == m);
    if kind == OxideMoveType::Quiet {
        assert(pawn_move_to(forward.delta(), OxideMoveType::Quiet)(to) =~= seq![m]);
        lemma_gather_holds(pawn_pushes_to(pos, false), pawn_move_to(forward.delta(), OxideMoveType::Quiet), 64, to, m);
        lemma_concat_holds(
            gather(pawn_pushes_to(pos, false), pawn_move_to(forward.delta(), OxideMoveType::Quiet), 64),
            gather(pawn_doubles_to(pos), pawn_move_to(2 * forward.delta(), OxideMoveType::DoublePawnPush), 64),
            m,
        );
    } else if kind == OxideMoveType::DoublePawnPush {
        assert(pawn_move_to(2 * forward.delta(), OxideMoveType::DoublePawnPush)(to) =~= seq![m]);
        lemma_gather_holds(
            pawn_doubles_to(pos),
            pawn_move_to(2 * forward.delta(), OxideMoveType::DoublePawnPush),
            64,
            to,
            m,
        );
        lemma_concat_holds(
            gather(pawn_pushes_to(pos, false), pawn_move_to(forward.delta(), OxideMoveType::Quiet), 64),
            gather(pawn_doubles_to(pos), pawn_move_to(2 * forward.delta(), OxideMoveType::DoublePawnPush), 64),
            m,
        );
    } else if kind == OxideMoveType::Capture || kind == OxideMoveType::EnPassantCapture {
        let takes_west = steps(from, to, west);
        let way = if takes_west {
            west
        } else {
            east
        };
        assert(pawn_move_to(way.delta(), kind)(to) =~= seq![m]);
        if kind == OxideMoveType::Capture {
            let a = gather(pawn_captures_to(pos, true, false), pawn_move_to(west.delta(), kind), 64);
            let b = gather(pawn_captures_to(pos, false, false), pawn_move_to(east.delta(), kind), 64);
            if takes_west {
                lemma_gather_holds(pawn_captures_to(pos, true, false), pawn_move_to(west.delta(), kind), 64, to, m);
            } else {
                lemma_gather_holds(pawn_captures_to(pos, false, false), pawn_move_to(east.delta(), kind), 64, to, m);
            }
            lemma_concat_holds(a, b, m);
        } else {
            let a = gather(en_passant_to(pos, true), pawn_move_to(west.delta(), kind), 64);
            let b = gather(en_passant_to(pos, false), pawn_move_to(east.delta(), kind), 64);
            if takes_west {
                lemma_gather_holds(en_passant_to(pos, true), pawn_move_to(west.delta(), kind), 64, to, m);
            } else {
                lemma_gather_holds(en_passant_to(pos, false), pawn_move_to(east.delta(), kind), 64, to, m);
            }
            lemma_concat_holds(a, b, m);
        }
    } else {
        let capture = kind.captures();
        let takes_west = capture && steps(from, to, west);
        let way = if !capture {
            forward
        } else if takes_west {
            west
        } else {
            east
        };
        let four = promotions_to(way.delta(), capture)(to);
        assert(four[0] == m || four[1] == m || four[2] == m || four[3] == m);
        let a = gather(pawn_captures_to(pos, true, true), promotions_to(west.delta(), true), 64);
        let b = gather(pawn_captures_to(pos, false, true), promotions_to(east.delta(), true), 64);
        let c = gather(pawn_pushes_to(pos, true), promotions_to(forward.delta(), false), 64);
        if !capture {
            lemma_gather_holds(pawn_pushes_to(pos, true), promotions_to(forward.delta(), false), 64, to, m);
        } else if takes_west {
            lemma_gather_holds(pawn_captures_to(pos, true, true), promotions_to(west.delta(), true), 64, to, m);
            lemma_concat_holds(a, b, m);
        } else {
            lemma_gather_holds(pawn_captures_to(pos, false, true), promotions_to(east.delta(), true), 64, to, m);
            lemma_concat_holds(a, b, m);
        }
        lemma_concat_holds(a + b, c, m);
    }
}

/// The generated moves are exactly the moves that the pieces of the side to
/// move can make by the rules of movement.
pub proof fn lemma_generated_moves_follow_the_rules(pos: OxidePosition, m: OxideMove)
    requires
        pos.wf(),
    ensures
        pseudo_moves(pos, true).contains(m) == is_pseudo_legal(pos, m),
        pseudo_moves(pos, false).contains(m) == (is_pseudo_legal(pos, m) && !is_castle(m.move_type)),
{
    lemma_generated_groups(pos, true, m);
    lemma_generated_groups(pos, false, m);
    if in_some_group(pos, true, m) {
        lemma_group_follows_rule(pos, m);
        lemma_generated_kinds(pos, true, m);
    }
    if in_some_group(pos, false, m) {
        lemma_generated_kinds(pos, false, m);
    }
    if is_pseudo_legal(pos, m) {
        lemma_move_of_parts(m);
        if follows_pawn_rule(pos, m) {
            lemma_pawn_rule_is_generated(pos, m);
        } else if follows_castle_rule(pos, m) {
            let kind = m.move_type;
            if kind == OxideMoveType::KingSideCastle {
                assert(seq![castle_move(pos.mover(), kind)][0] == m);
            } else {
                assert(seq![castle_move(pos.mover(), kind)][0] == m);
            }
            lemma_concat_holds(
                if may_castle(pos, OxideMoveType::KingSideCastle) {
                    seq![castle_move(pos.mover(), OxideMoveType::KingSideCastle)]
                } else {
                    Seq::<OxideMove>::empty()
                },
                if may_castle(pos, OxideMoveType::QueenSideCastle) {
                    seq![castle_move(pos.mover(), OxideMoveType::QueenSideCastle)]
                } else {
                    Seq::<OxideMove>::empty()
                },
                m,
            );
        } else {
            let moving = pos.sided_at(m.source());
            crate::piece::lemma_with_side_round_trip(moving);
            crate::position::lemma_position_occupancy(pos);
            lemma_piece_move_generated(pos, true, moving.kind(), m.source(), m.target());
            lemma_piece_move_generated(pos, false, moving.kind(), m.source(), m.target());
            let kind = moving.kind();
            let listed = quiet_or_capture(pos.occupancy(), m.source(), m.target());
            assert(listed == m);
            assert(piece_moves(pos, kind).contains(m)) by {
                assert(seq![m][0] == m);
                lemma_gather_holds(
                    piece_targets(pos, kind, m.source()),
                    moves_of_piece_to(pos.occupancy(), m.source()),
                    64,
                    m.target(),
                    m,
                );
                lemma_gather_holds(piece_squares(pos, kind), moves_of_piece(pos, kind), 64, m.source(), m);
            }
        }
        if in_some_group(pos, true, m) && !is_castle(m.move_type) {
            if castle_moves(pos).contains(m) {
                lemma_castle_moves(pos, m);
            }
        }
    }
}

/// The number of the square on which a move ends.
pub open spec fn by_target() -> spec_fn(OxideMove) -> int {
    |m: OxideMove| m.target()
}

/// The number of the square on which a move starts.
pub open spec fn by_source() -> spec_fn(OxideMove) -> int {
    |m: OxideMove| m.source()
}

/// A group of pawn moves has no repetitions, and each of its moves has the
/// kind of the group and starts `back` squares below its target, which is
/// one of the wanted squares.
pub proof fn lemma_pawn_gather(wanted: spec_fn(int) -> bool, back: int, kind: OxideMoveType)
    requires
        forall|to: int| 0 <= to < 64 && #[trigger] wanted(to) ==> on_board(to - back),
    ensures
        gather(wanted, pawn_move_to(back, kind), 64).no_duplicates(),
        forall|m: OxideMove| #[trigger]
            gather(wanted, pawn_move_to(back, kind), 64).contains(m) ==> m.move_type == kind && m.source()
                == m.target() - back && wanted(m.target()),
{
    let each = pawn_move_to(back, kind);
    assert forall|i: int, m: OxideMove| 0 <= i < 64 && wanted(i) && (#[trigger] each(i)).contains(m) implies (
    #[trigger] by_target()(m)) == i && m.move_type == kind && m.source() == i - back by {
        assert(seq![OxideMove::of(square_of(i - back), square_of(i), kind)].contains(m));
        lemma_square_of(i);
        lemma_square_of(i - back);
    }
    lemma_gather_no_duplicates(wanted, each, 64, by_target());
    assert forall|m: OxideMove| #[trigger] gather(wanted, each, 64).contains(m) implies m.move_type == kind
        && m.source() == m.target() - back && wanted(m.target()) by {
        lemma_gather_member(wanted, each, 64, m);
        let i = choose|i: int| 0 <= i < 64 && #[trigger] wanted(i) && each(i).contains(m);
        assert(by_target()(m) == i);
    }
}

/// A group of promotions has no repetitions, and each of its moves is a
/// promotion, captures or not as the group does, and starts `back` squares
/// below its target, which is one of the wanted squares.
pub proof fn lemma_promotion_gather(wanted: spec_fn(int) -> bool, back: int, capture: bool)
    requires
        forall|to: int| 0 <= to < 64 && #[trigger] wanted(to) ==> on_board(to - back),
    ensures
        gather(wanted, promotions_to(back, capture), 64).no_duplicates(),
        forall|m: OxideMove| #[trigger]
            gather(wanted, promotions_to(back, capture), 64).contains(m) ==> m.move_type.promotes()
                && m.move_type.captures() == capture && m.source() == m.target() - back && wanted(
                m.target(),
            ),
{
    let each = promotions_to(back, capture);
    assert forall|i: int, m: OxideMove| 0 <= i < 64 && wanted(i) && (#[trigger] each(i)).contains(m) implies (
    #[trigger] by_target()(m)) == i && m.move_type.promotes() && m.move_type.captures() == capture
        && m.source() == i - back by {
        let four = each(i);
        let k = choose|k: int| 0 <= k < four.len() && four[k] == m;
        lemma_square_of(i);
        lemma_square_of(i - back);
    }
    assert forall|i: int| 0 <= i < 64 && wanted(i) implies (#[trigger] each(i)).no_duplicates() by {
        let four = each(i);
        assert(four[0].move_type != four[1].move_type && four[0].move_type != four[2].move_type
            && four[0].move_type != four[3].move_type && four[1].move_type != four[2].move_type
            && four[1].move_type != four[3].move_type && four[2].move_type != four[3].move_type);
    }
    lemma_gather_no_duplicates(wanted, each, 64, by_target());
    assert forall|m: OxideMove| #[trigger] gather(wanted, each, 64).contains(m) implies m.move_type.promotes()
        && m.move_type.captures() == capture && m.source() == m.target() - back && wanted(m.target()) by {
        lemma_gather_member(wanted, each, 64, m);
        let i = choose|i: int| 0 <= i < 64 && #[trigger] wanted(i) && each(i).contains(m);
        assert(by_target()(m) == i);
    }
}

/// The moves of the pieces of one kind have no repetitions.
pub proof fn lemma_piece_moves_no_duplicates(pos: OxidePosition, kind: OxidePiece)
    ensures
        piece_moves(pos, kind).no_duplicates(),
{
    let outer = moves_of_piece(pos, kind);
    assert forall|from: int| 0 <= from < 64 implies (#[trigger] outer(from)).no_duplicates() && (forall|
        m: OxideMove,
    | (#[trigger] outer(from).contains(m)) ==> m.source() == from) by {
        let wanted = piece_targets(pos, kind, from);
        let each = moves_of_piece_to(pos.occupancy(), from);
        lemma_square_of(from);
        assert forall|i: int, m: OxideMove| 0 <= i < 64 && wanted(i) && (#[trigger] each(i)).contains(m) implies (
        #[trigger] by_target()(m)) == i && m.source() == from by {
            assert(seq![quiet_or_capture(pos.occupancy(), from, i)].contains(m));
            lemma_square_of(i);
        }
        lemma_gather_no_duplicates(wanted, each, 64, by_target());
        assert forall|m: OxideMove| (#[trigger] outer(from).contains(m)) implies m.source() == from by {
            lemma_gather_member(wanted, each, 64, m);
            let i = choose|i: int| 0 <= i < 64 && #[trigger] wanted(i) && each(i).contains(m);
            assert(by_target()(m) == i);
        }
    }
    assert forall|i: int, m: OxideMove|
        0 <= i < 64 && piece_squares(pos, kind)(i) && (#[trigger] outer(i)).contains(m) implies (
    #[trigger] by_source()(m)) == i by {}
    lemma_gather_no_duplicates(piece_squares(pos, kind), outer, 64, by_source());
}

/// The moves of the pawns have no repetitions.
pub proof fn lemma_pawn_moves_no_duplicates(pos: OxidePosition)
    requires
        pos.wf(),
    ensures
        pawn_moves(pos).no_duplicates(),
{
    let side = pos.mover();
    let west = pawn_west(side);
    let east = pawn_east(side);
    let forward = pawn_forward(side);
    assert forall|to: int| has_step_from(to, west) implies on_board(to - west.delta()) by {
        crate::line::lemma_step_coordinates(to, west);
    }
    assert forall|to: int| has_step_from(to, east) implies on_board(to - east.delta()) by {
        crate::line::lemma_step_coordinates(to, east);
    }
    assert forall|to: int| has_step_from(to, forward) implies on_board(to - forward.delta()) by {
        crate::line::lemma_step_coordinates(to, forward);
    }
    assert forall|to: int| #[trigger] pawn_doubles_to(pos)(to) implies on_board(to - 2 * forward.delta()) by {
        crate::line::lemma_step_coordinates(to, forward);
        crate::line::lemma_step_coordinates(step_from(to, forward), forward);
    }
    let to_west = gather(pawn_captures_to(pos, true, true), promotions_to(west.delta(), true), 64);
    let to_east = gather(pawn_captures_to(pos, false, true), promotions_to(east.delta(), true), 64);
    let ahead = gather(pawn_pushes_to(pos, true), promotions_to(forward.delta(), false), 64);
    let a1 = gather(pawn_pushes_to(pos, false), pawn_move_to(forward.delta(), OxideMoveType::Quiet), 64);
    let a2 = gather(pawn_doubles_to(pos), pawn_move_to(2 * forward.delta(), OxideMoveType::DoublePawnPush), 64);
    let t1 = gather(pawn_captures_to(pos, true, false), pawn_move_to(west.delta(), OxideMoveType::Capture), 64);
    let t2 = gather(pawn_captures_to(pos, false, false), pawn_move_to(east.delta(), OxideMoveType::Capture), 64);
    let e1 = gather(en_passant_to(pos, true), pawn_move_to(west.delta(), OxideMoveType::EnPassantCapture), 64);
    let e2 = gather(en_passant_to(pos, false), pawn_move_to(east.delta(), OxideMoveType::EnPassantCapture), 64);
    lemma_promotion_gather(pawn_captures_to(pos, true, true), west.delta(), true);
    lemma_promotion_gather(pawn_captures_to(pos, false, true), east.delta(), true);
    lemma_promotion_gather(pawn_pushes_to(pos, true), forward.delta(), false);
    lemma_pawn_gather(pawn_pushes_to(pos, false), forward.delta(), OxideMoveType::Quiet);
    lemma_pawn_gather(pawn_doubles_to(pos), 2 * forward.delta(), OxideMoveType::DoublePawnPush);
    lemma_pawn_gather(pawn_captures_to(pos, true, false), west.delta(), OxideMoveType::Capture);
    lemma_pawn_gather(pawn_captures_to(pos, false, false), east.delta(), OxideMoveType::Capture);
    lemma_pawn_gather(en_passant_to(pos, true), west.delta(), OxideMoveType::EnPassantCapture);
    lemma_pawn_gather(en_passant_to(pos, false), east.delta(), OxideMoveType::EnPassantCapture);
    lemma_concat_no_duplicates(to_west, to_east);
    assert forall|m: OxideMove| !((to_west + to_east).contains(m) && ahead.contains(m)) by {
        if (to_west + to_east).contains(m) {
            lemma_in_concat(to_west, to_east, m);
        }
    }
    lemma_concat_no_duplicates(to_west + to_east, ahead);
    lemma_concat_no_duplicates(a1, a2);
    lemma_concat_no_duplicates(t1, t2);
    lemma_concat_no_duplicates(e1, e2);
    let promotions = pawn_promotions(pos);
    let advances = pawn_advances(pos);
    let takes = pawn_takes(pos);
    let passes = pawn_passes(pos);
    assert forall|m: OxideMove| #[trigger] promotions.contains(m) implies m.move_type.promotes() by {
        lemma_in_concat(to_west + to_east, ahead, m);
        if (to_west + to_east).contains(m) {
            lemma_in_concat(to_west, to_east, m);
        }
    }
    assert forall|m: OxideMove| #[trigger] advances.contains(m) implies m.move_type == OxideMoveType::Quiet
        || m.move_type == OxideMoveType::DoublePawnPush by {
        lemma_in_concat(a1, a2, m);
    }
    assert forall|m: OxideMove| #[trigger] takes.contains(m) implies m.move_type == OxideMoveType::Capture by {
        lemma_in_concat(t1, t2, m);
    }
    assert forall|m: OxideMove| #[trigger] passes.contains(m) implies m.move_type
        == OxideMoveType::EnPassantCapture by {
        lemma_in_concat(e1, e2, m);
    }
    lemma_concat_no_duplicates(promotions, advances);
    assert forall|m: OxideMove| !((promotions + advances).contains(m) && takes.contains(m)) by {
        if (promotions + advances).contains(m) {
            lemma_in_concat(promotions, advances, m);
        }
    }
    lemma_concat_no_duplicates(promotions + advances, takes);
    assert forall|m: OxideMove| !((promotions + advances + takes).contains(m) && passes.contains(m)) by {
        if (promotions + advances + takes).contains(m) {
            lemma_in_concat(promotions + advances, takes, m);
            if (promotions + advances).contains(m) {
                lemma_in_concat(promotions, advances, m);
            }
        }
    }
    lemma_concat_no_duplicates(promotions + advances + takes, passes);
}

/// No move is generated twice.
pub proof fn lemma_generated_moves_no_duplicates(pos: OxidePosition, castles: bool)
    requires
        pos.wf(),
    ensures
        pseudo_moves(pos, castles).no_duplicates(),
{
    let pawns = pawn_moves(pos);
    let knights = piece_moves(pos, OxidePiece::Knight);
    let bishops = piece_moves(pos, OxidePiece::Bishop);
    let rooks = piece_moves(pos, OxidePiece::Rook);
    let queens = piece_moves(pos, OxidePiece::Queen);
    let kings = piece_moves(pos, OxidePiece::King);
    let castling = if castles {
        castle_moves(pos)
    } else {
        Seq::<OxideMove>::empty()
    };
    lemma_pawn_moves_no_duplicates(pos);
    lemma_piece_moves_no_duplicates(pos, OxidePiece::Knight);
    lemma_piece_moves_no_duplicates(pos, OxidePiece::Bishop);
    lemma_piece_moves_no_duplicates(pos, OxidePiece::Rook);
    lemma_piece_moves_no_duplicates(pos, OxidePiece::Queen);
    lemma_piece_moves_no_duplicates(pos, OxidePiece::King);
    assert forall|m: OxideMove| #[trigger] pawns.contains(m) implies own_pawn(pos, m.source()) by {
        lemma_pawn_moves(pos, m);
        lemma_generated_groups(pos, true, m);
        lemma_group_follows_rule(pos, m);
        if castle_moves(pos).contains(m) {
            lemma_castle_moves(pos, m);
        }
        if follows_piece_rule(pos, m) {
        }
        lemma_pawn_source(pos, m);
    }
    assert forall|m: OxideMove, kind: OxidePiece|
        kind != OxidePiece::Pawn && kind != OxidePiece::Empty && #[trigger] piece_moves(pos, kind).contains(
            m,
        ) implies pos.sided_at(m.source()) == kind.with_side(pos.mover()) && !is_castle(m.move_type) by {
        lemma_piece_moves(pos, kind, m);
    }
    assert forall|m: OxideMove| #[trigger] castling.contains(m) implies is_castle(m.move_type) by {
        lemma_castle_moves(pos, m);
    }
    assert(castling.no_duplicates()) by {
        if castles {
            let a = if may_castle(pos, OxideMoveType::KingSideCastle) {
                seq![castle_move(pos.mover(), OxideMoveType::KingSideCastle)]
            } else {
                Seq::<OxideMove>::empty()
            };
            let b = if may_castle(pos, OxideMoveType::QueenSideCastle) {
                seq![castle_move(pos.mover(), OxideMoveType::QueenSideCastle)]
            } else {
                Seq::<OxideMove>::empty()
            };
            assert forall|m: OxideMove| !(a.contains(m) && b.contains(m)) by {
                if a.contains(m) && b.contains(m) {
                    assert(a[0] == m);
                    assert(b[0] == m);
                }
            }
            lemma_concat_no_duplicates(a, b);
        }
    }
    lemma_concat_no_duplicates(pawns, knights);
    assert forall|m: OxideMove| !((pawns + knights).contains(m) && bishops.contains(m)) by {
        if (pawns + knights).contains(m) {
            lemma_in_concat(pawns, knights, m);
        }
    }
    lemma_concat_no_duplicates(pawns + knights, bishops);
    assert forall|m: OxideMove| !((pawns + knights + bishops).contains(m) && rooks.contains(m)) by {
        if (pawns + knights + bishops).contains(m) {
            lemma_in_concat(pawns + knights, bishops, m);
            if (pawns + knights).contains(m) {
                lemma_in_concat(pawns, knights, m);
            }
        }
    }
    lemma_concat_no_duplicates(pawns + knights + bishops, rooks);
    assert forall|m: OxideMove| !((pawns + knights + bishops + rooks).contains(m) && queens.contains(m)) by {
        if (pawns + knights + bishops + rooks).contains(m) {
            lemma_in_concat(pawns + knights + bishops, rooks, m);
            if (pawns + knights + bishops).contains(m) {
                lemma_in_concat(pawns + knights, bishops, m);
                if (pawns + knights).contains(m) {
                    lemma_in_concat(pawns, knights, m);
                }
            }
        }
    }
    lemma_concat_no_duplicates(pawns + knights + bishops + rooks, queens);
    assert forall|m: OxideMove| !((pawns + knights + bishops + rooks + queens).contains(m) && kings.contains(m)) by {
        if (pawns + knights + bishops + rooks + queens).contains(m) {
            lemma_in_concat(pawns + knights + bishops + rooks, queens, m);
            if (pawns + knights + bishops + rooks).contains(m) {
                lemma_in_concat(pawns + knights + bishops, rooks, m);
                if (pawns + knights + bishops).contains(m) {
                    lemma_in_concat(pawns + knights, bishops, m);
                    if (pawns + knights).contains(m) {
                        lemma_in_concat(pawns, knights, m);
                    }
                }
            }
        }
    }
    lemma_concat_no_duplicates(pawns + knights + bishops + rooks + queens, kings);
    assert forall|m: OxideMove|
        !((pawns + knights + bishops + rooks + queens + kings).contains(m) && castling.contains(m)) by {
        if (pawns + knights + bishops + rooks + queens + kings).contains(m) && castling.contains(m) {
            lemma_generated_groups(pos, false, m);
            lemma_generated_kinds(pos, false, m);
            assert(pseudo_moves(pos, false) =~= pawns + knights + bishops + rooks + queens + kings);
        }
    }
    lemma_concat_no_duplicates(pawns + knights + bishops + rooks + queens + kings, castling);
}

/// Every pawn move starts on a square with a pawn of the side to move.
pub proof fn lemma_pawn_source(pos: OxidePosition, m: OxideMove)
    requires
        pos.wf(),
        pawn_moves(pos).contains(m),
    ensures
        own_pawn(pos, m.source()),
{
    let a = pawn_promotions(pos);
    let b = pawn_advances(pos);
    let c = pawn_takes(pos);
    let d = pawn_passes(pos);
    lemma_in_concat(a + b + c, d, m);
    if !d.contains(m) {
        lemma_in_concat(a + b, c, m);
        if !c.contains(m) {
            lemma_in_concat(a, b, m);
        }
    }
    lemma_generated_groups(pos, true, m);
    lemma_group_follows_rule(pos, m);
    if a.contains(m) {
        lemma_pawn_promotions(pos, m);
    }
    if b.contains(m) {
        lemma_pawn_advances(pos, m);
    }
    if c.contains(m) {
        lemma_pawn_takes(pos, m);
    }
    if d.contains(m) {
        lemma_pawn_passes(pos, m);
    }
    lemma_move_of_parts(m);
}

} // verus!
