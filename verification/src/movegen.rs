//! Move generation: the moves that the pieces of the side to move can make,
//! whether or not they leave its king safe.
use vstd::prelude::*;
use crate::attacks::{
    pawn_east, pawn_east_attacks, pawn_forward, pawn_pushes, pawn_west, pawn_west_attacks,
    piece_hits, pseudo_attacks,
};
use crate::bitboard::{OxideBitboard, count_below, lemma_count_without};
use crate::bits::{
    ALL_SQUARES, bit, lemma_bit_and, lemma_bit_masks, lemma_bit_not, lemma_bit_or, lemma_bit_zero, on_board,
    rank_of,
};
use crate::board::{OxideBoard, is_attacked_by};
use crate::castle::OxideCastleRights;
use crate::chess_move::{OxideMove, OxideMoveType, OxideSimpleMove};
use crate::gather::{gather, lemma_gather_same, lemma_gather_skip};
use crate::movelist::{MOVE_LIST_LIMIT, MoveList};
use crate::piece::{OxidePiece, OxideSidedPiece};
use crate::position::OxidePosition;
use crate::rays::{Direction, has_step_from, step_from};
use crate::rules::{attacked_by, castle_rook_from, single};
use crate::side::OxideSide;
use crate::square::{OxideSquare, lemma_square_of_index, square_of};

pub use crate::legal::{
    capture_moves, evasion_moves, legal_moves, non_evasion_moves, pseudo_legal_filter,
    quiet_check_moves, quiet_moves,
};

verus! {

/// The squares of the set `x`.
pub open spec fn in_set(x: u64) -> spec_fn(int) -> bool {
    |i: int| bit(x, i)
}

/// The move from `from` to `to`: a capture where `to` is one of the squares
/// of `occupied`, a quiet move where it is not.
pub open spec fn quiet_or_capture(occupied: u64, from: int, to: int) -> OxideMove {
    OxideMove::of(
        square_of(from),
        square_of(to),
        if bit(occupied, to) {
            OxideMoveType::Capture
        } else {
            OxideMoveType::Quiet
        },
    )
}

/// For each target square the one move of a piece from `from` to it.
pub open spec fn moves_of_piece_to(occupied: u64, from: int) -> spec_fn(int) -> Seq<OxideMove> {
    |to: int| seq![quiet_or_capture(occupied, from, to)]
}

/// The move from `from_square` to `to_square`: a capture where the target
/// is occupied, a quiet move where it is not.
pub fn new_quiet_or_capture(occupied: OxideBitboard, from_square: OxideSquare, to_square: OxideSquare) -> (r:
    OxideMove)
    ensures
        r == quiet_or_capture(occupied.0, from_square.index(), to_square.index()),
{
    proof {
        lemma_square_of_index(from_square);
        lemma_square_of_index(to_square);
    }
    let kind = if occupied.contains(to_square) {
        OxideMoveType::Capture
    } else {
        OxideMoveType::Quiet
    };
    OxideMove { simple_move: OxideSimpleMove { from: from_square, to: to_square }, move_type: kind }
}

/// Appends, for each square of `attacks_mask` in increasing order, the move
/// of the piece on `from_square` to that square.
pub fn extend_attack_mask_moves(
    move_list: &mut MoveList,
    from_square: OxideSquare,
    attacks_mask: OxideBitboard,
    occupied: OxideBitboard,
)
    requires
        old(move_list)@.len() + 64 < MOVE_LIST_LIMIT,
    ensures
        final(move_list)@ == old(move_list)@ + gather(
            in_set(attacks_mask.0),
            moves_of_piece_to(occupied.0, from_square.index()),
            64,
        ),
        final(move_list)@.len() <= old(move_list)@.len() + 64,
{
    let ghost start = move_list@;
    let ghost wanted = in_set(attacks_mask.0);
    let ghost each = moves_of_piece_to(occupied.0, from_square.index());
    let ghost mut done: nat = 0;
    let mut rest = attacks_mask;
    assert(start + gather(wanted, each, 0) =~= start);
    while rest.0 != 0
        invariant
            done <= 64,
            wanted == in_set(attacks_mask.0),
            each == moves_of_piece_to(occupied.0, from_square.index()),
            forall|i: int| rest.has(i) ==> attacks_mask.has(i) && i >= done,
            forall|i: int| attacks_mask.has(i) && i >= done ==> rest.has(i),
            move_list@ == start + gather(wanted, each, done),
            move_list@.len() <= start.len() + done,
            start.len() + 64 < MOVE_LIST_LIMIT,
        decreases count_below(rest.0, 64),
    {
        let ghost before = rest;
        match rest.next() {
            Some(to_square) => {
                proof {
                    lemma_count_without(before.0, rest.0, to_square.index(), 64);
                    lemma_gather_skip(wanted, each, done, to_square.index() as nat);
                }
                let m = new_quiet_or_capture(occupied, from_square, to_square);
                move_list.push(m);
                proof {
                    let t = to_square.index();
                    assert(wanted(t));
                    assert(each(t) =~= seq![m]);
                    assert(move_list@ =~= start + gather(wanted, each, (t + 1) as nat));
                    done = (t + 1) as nat;
                }
            },
            None => {},
        }
    }
    proof {
        lemma_bit_masks();
        lemma_gather_skip(wanted, each, done, 64);
    }
}

/// Whether a piece may move to square `i`: the square is empty, or holds a
/// piece of the other side that is no king.
pub open spec fn is_target(pos: OxidePosition, i: int) -> bool {
    on_board(i) && (pos.sided_at(i) == OxideSidedPiece::Empty || (pos.sided_at(i).owner()
        != pos.mover() && pos.sided_at(i).kind() != OxidePiece::King))
}

/// Whether square `i` is empty.
pub open spec fn is_free(pos: OxidePosition, i: int) -> bool {
    on_board(i) && pos.sided_at(i) == OxideSidedPiece::Empty
}

/// Whether square `i` holds a piece that the side to move can capture: a
/// piece of the other side that is no king.
pub open spec fn is_prey(pos: OxidePosition, i: int) -> bool {
    on_board(i) && pos.sided_at(i) != OxideSidedPiece::Empty && pos.sided_at(i).owner()
        != pos.mover() && pos.sided_at(i).kind() != OxidePiece::King
}

/// The squares to which the piece of kind `kind` on `from` may move.
pub open spec fn piece_targets(pos: OxidePosition, kind: OxidePiece, from: int) -> spec_fn(int) -> bool {
    |to: int| piece_hits(kind, single(from), pos.occupancy(), to) && is_target(pos, to)
}

/// The squares that hold a piece of kind `kind` of the side to move.
pub open spec fn piece_squares(pos: OxidePosition, kind: OxidePiece) -> spec_fn(int) -> bool {
    |from: int| on_board(from) && pos.sided_at(from) == kind.with_side(pos.mover())
}

/// For each square the moves of the piece of kind `kind` that stands on it.
pub open spec fn moves_of_piece(pos: OxidePosition, kind: OxidePiece) -> spec_fn(int) -> Seq<OxideMove> {
    |from: int| gather(piece_targets(pos, kind, from), moves_of_piece_to(pos.occupancy(), from), 64)
}

/// The moves of the pieces of kind `kind` of the side to move, which is no
/// pawn: for each such piece, by square, its moves to the squares that it
/// attacks and may move to, by square.
pub open spec fn piece_moves(pos: OxidePosition, kind: OxidePiece) -> Seq<OxideMove> {
    gather(piece_squares(pos, kind), moves_of_piece(pos, kind), 64)
}

/// The squares among those of `targets` to which the piece of kind `kind`
/// on `from` may move.
pub open spec fn piece_targets_within(pos: OxidePosition, kind: OxidePiece, from: int, targets: u64) -> spec_fn(
    int,
) -> bool {
    |to: int| piece_hits(kind, single(from), pos.occupancy(), to) && is_target(pos, to) && bit(targets, to)
}

/// For each square the moves of the piece of kind `kind` that stands on it
/// to the squares of `targets`.
pub open spec fn moves_of_piece_within(pos: OxidePosition, kind: OxidePiece, targets: u64) -> spec_fn(int) -> Seq<
    OxideMove,
> {
    |from: int| gather(piece_targets_within(pos, kind, from, targets), moves_of_piece_to(pos.occupancy(), from), 64)
}

/// The moves of the pieces of kind `kind` of the side to move to the
/// squares of `targets`: for each such piece, by square, its moves to the
/// squares of `targets` that it attacks and may move to, by square. With the
/// pieces of the other side as targets these are the captures, with the free
/// squares the quiet moves.
pub open spec fn piece_moves_within(pos: OxidePosition, kind: OxidePiece, targets: u64) -> Seq<OxideMove> {
    gather(piece_squares(pos, kind), moves_of_piece_within(pos, kind, targets), 64)
}

/// The squares of `targets` that the piece of kind `kind` on `from`
/// attacks, whatever they hold.
pub open spec fn attacked_targets(pos: OxidePosition, kind: OxidePiece, from: int, targets: u64) -> spec_fn(
    int,
) -> bool {
    |to: int| piece_hits(kind, single(from), pos.occupancy(), to) && bit(targets, to)
}

/// For each square the moves of the piece of kind `kind` that stands on it
/// onto the squares of `targets` that it attacks.
pub open spec fn moves_of_piece_onto(pos: OxidePosition, kind: OxidePiece, targets: u64) -> spec_fn(int) -> Seq<
    OxideMove,
> {
    |from: int| gather(attacked_targets(pos, kind, from, targets), moves_of_piece_to(pos.occupancy(), from), 64)
}

/// The moves of the pieces of kind `kind` of the side to move onto every
/// square of `targets` that they attack: for each such piece, by square, one
/// move for each attacked square of `targets`, by square, a capture where
/// the square holds a piece and a quiet move where it does not. Nothing is
/// left out for what a square holds: to keep the squares of the own pieces
/// out is left to the targets.
pub open spec fn piece_moves_onto(pos: OxidePosition, kind: OxidePiece, targets: u64) -> Seq<OxideMove> {
    gather(piece_squares(pos, kind), moves_of_piece_onto(pos, kind, targets), 64)
}

/// With the squares that no piece of the side to move and no king holds as
/// targets, the moves onto the attacked targets are the moves that the
/// pieces may make.
pub proof fn lemma_open_targets(pos: OxidePosition, kind: OxidePiece, targets: u64, open: u64)
    requires
        forall|i: int| bit(open, i) == (is_target(pos, i) && bit(targets, i)),
    ensures
        piece_moves_onto(pos, kind, open) == piece_moves_within(pos, kind, targets),
{
    assert forall|from: int| #[trigger]
        moves_of_piece_onto(pos, kind, open)(from) == moves_of_piece_within(pos, kind, targets)(from) by {
        lemma_gather_same(
            attacked_targets(pos, kind, from, open),
            moves_of_piece_to(pos.occupancy(), from),
            piece_targets_within(pos, kind, from, targets),
            moves_of_piece_to(pos.occupancy(), from),
            64,
        );
    }
    lemma_gather_same(
        piece_squares(pos, kind),
        moves_of_piece_onto(pos, kind, open),
        piece_squares(pos, kind),
        moves_of_piece_within(pos, kind, targets),
        64,
    );
}

/// With every square as a target no move is left out.
pub proof fn lemma_whole_board_limits_nothing(pos: OxidePosition, kind: OxidePiece)
    ensures
        piece_moves_within(pos, kind, ALL_SQUARES) == piece_moves(pos, kind),
{
    lemma_bit_masks();
    assert forall|from: int| #[trigger]
        moves_of_piece_within(pos, kind, ALL_SQUARES)(from) == moves_of_piece(pos, kind)(from) by {
        lemma_gather_same(
            piece_targets_within(pos, kind, from, ALL_SQUARES),
            moves_of_piece_to(pos.occupancy(), from),
            piece_targets(pos, kind, from),
            moves_of_piece_to(pos.occupancy(), from),
            64,
        );
    }
    lemma_gather_same(
        piece_squares(pos, kind),
        moves_of_piece_within(pos, kind, ALL_SQUARES),
        piece_squares(pos, kind),
        moves_of_piece(pos, kind),
        64,
    );
}

/// The squares to which pieces may move: all but those of the side to move
/// and those of the kings of the other side.
pub fn target_squares(pos: &OxidePosition) -> (r: OxideBitboard)
    requires
        pos.wf(),
    ensures
        forall|i: int| #[trigger] r.has(i) == is_target(*pos, i),
{
    let own = pos.mask_for_side(pos.side_to_move());
    let kings = pos.piece_mask(OxidePiece::King);
    let r = OxideBitboard(!(own.0 | kings.0));
    proof {
        lemma_bit_or(own.0, kings.0);
        lemma_bit_not(own.0 | kings.0);
    }
    r
}

/// Appends the moves of the pieces of kind `piece` of the side to move onto
/// the squares of `target_mask`: for each piece what it attacks, cut down to
/// `target_mask` and to nothing else, a capture wherever the square holds a
/// piece. A caller that wants no move onto the pieces of the side to move
/// leaves their squares out of `target_mask`. The kind must not be a pawn.
pub fn generate_piece_moves(
    board: &OxideBoard,
    move_list: &mut MoveList,
    piece: OxidePiece,
    target_mask: OxideBitboard,
)
    requires
        board.wf(),
        piece != OxidePiece::Pawn,
        piece != OxidePiece::Empty,
        old(move_list)@.len() + 4096 < MOVE_LIST_LIMIT,
    ensures
        final(move_list)@ == old(move_list)@ + piece_moves_onto(board.pos(), piece, target_mask.0),
        final(move_list)@.len() <= old(move_list)@.len() + 4096,
{
    let position = board.position();
    let side_moving = position.side_to_move();
    let occupied_mask = position.occupied();
    let piece_mask = position.sided_piece_mask(piece.add_side(side_moving));
    let ghost pos = board.pos();
    let ghost start = move_list@;
    let ghost wanted = piece_squares(pos, piece);
    let ghost each = moves_of_piece_onto(pos, piece, target_mask.0);
    let ghost mut done: nat = 0;
    let mut rest = piece_mask;
    assert(start + gather(wanted, each, 0) =~= start);
    proof {
        assert forall|i: int| #[trigger] wanted(i) == piece_mask.has(i) by {
            if !on_board(i) {
                crate::position::lemma_position_off_board(pos, i);
            }
        }
    }
    while rest.0 != 0
        invariant
            done <= 64,
            position.wf(),
            *position == pos,
            piece != OxidePiece::Pawn,
            piece != OxidePiece::Empty,
            occupied_mask.0 == pos.occupancy(),
            wanted == piece_squares(pos, piece),
            each == moves_of_piece_onto(pos, piece, target_mask.0),
            forall|i: int| #[trigger] wanted(i) == piece_mask.has(i),
            forall|i: int| rest.has(i) ==> piece_mask.has(i) && i >= done,
            forall|i: int| piece_mask.has(i) && i >= done ==> rest.has(i),
            move_list@ == start + gather(wanted, each, done),
            move_list@.len() <= start.len() + 64 * done,
            start.len() + 4096 < MOVE_LIST_LIMIT,
        decreases count_below(rest.0, 64),
    {
        let ghost before = rest;
        let ghost so_far = move_list@;
        match rest.next() {
            Some(from_square) => {
                proof {
                    lemma_count_without(before.0, rest.0, from_square.index(), 64);
                    lemma_gather_skip(wanted, each, done, from_square.index() as nat);
                }
                let attacks = pseudo_attacks(piece, from_square, occupied_mask);
                let attacks_mask = OxideBitboard(attacks.0 & target_mask.0);
                extend_attack_mask_moves(move_list, from_square, attacks_mask, occupied_mask);
                proof {
                    let f = from_square.index();
                    lemma_bit_and(attacks.0, target_mask.0);
                    lemma_gather_same(
                        in_set(attacks_mask.0),
                        moves_of_piece_to(occupied_mask.0, f),
                        attacked_targets(pos, piece, f, target_mask.0),
                        moves_of_piece_to(pos.occupancy(), f),
                        64,
                    );
                    assert(wanted(f));
                    assert(each(f) == gather(
                        attacked_targets(pos, piece, f, target_mask.0),
                        moves_of_piece_to(pos.occupancy(), f),
                        64,
                    ));
                    assert(move_list@ =~= start + gather(wanted, each, (f + 1) as nat));
                    done = (f + 1) as nat;
                }
            },
            None => {},
        }
    }
    proof {
        lemma_bit_masks();
        lemma_gather_skip(wanted, each, done, 64);
    }
}

/// The square from which a pawn of `side` reaches `to_square` by a capture
/// towards the west, or towards the east.
pub fn reverse_pawn_shift(side: OxideSide, to_square: OxideSquare, west: bool) -> (r: OxideSquare)
    requires
        has_step_from(to_square.index(), pawn_capture_direction(side, west)),
    ensures
        r.index() == step_from(to_square.index(), pawn_capture_direction(side, west)),
{
    if side.is_white() {
        if west {
            to_square.south_east_shift()
        } else {
            to_square.south_west_shift()
        }
    } else {
        if west {
            to_square.north_east_shift()
        } else {
            to_square.north_west_shift()
        }
    }
}

/// The direction in which the pawns of `side` capture, towards the west or
/// towards the east.
pub open spec fn pawn_capture_direction(side: OxideSide, west: bool) -> Direction {
    if west {
        pawn_west(side)
    } else {
        pawn_east(side)
    }
}

/// The square behind `to` from which a pawn of `side` pushes to it.
pub fn reverse_pawn_push(side: OxideSide, to_square: OxideSquare) -> (r: OxideSquare)
    requires
        has_step_from(to_square.index(), pawn_forward(side)),
    ensures
        r.index() == step_from(to_square.index(), pawn_forward(side)),
{
    if side.is_white() {
        to_square.south_shift()
    } else {
        to_square.north_shift()
    }
}

/// For each target square the one move of kind `kind` that starts `back`
/// squares below it.
pub open spec fn pawn_move_to(back: int, kind: OxideMoveType) -> spec_fn(int) -> Seq<OxideMove> {
    |to: int| seq![OxideMove::of(square_of(to - back), square_of(to), kind)]
}

/// For each target square the four promotions that start `back` squares
/// below it: to a queen, a knight, a rook and a bishop.
pub open spec fn promotions_to(back: int, capture: bool) -> spec_fn(int) -> Seq<OxideMove> {
    |to: int|
        seq![
            OxideMove::of(
                square_of(to - back),
                square_of(to),
                OxideMoveType::of_promotion(OxidePiece::Queen, capture),
            ),
            OxideMove::of(
                square_of(to - back),
                square_of(to),
                OxideMoveType::of_promotion(OxidePiece::Knight, capture),
            ),
            OxideMove::of(
                square_of(to - back),
                square_of(to),
                OxideMoveType::of_promotion(OxidePiece::Rook, capture),
            ),
            OxideMove::of(
                square_of(to - back),
                square_of(to),
                OxideMoveType::of_promotion(OxidePiece::Bishop, capture),
            ),
        ]
}

/// A move made of its parts.
fn build_move(from: OxideSquare, to: OxideSquare, kind: OxideMoveType) -> (r: OxideMove)
    ensures
        r == OxideMove::of(square_of(from.index()), square_of(to.index()), kind),
        r == OxideMove::of(from, to, kind),
{
    proof {
        lemma_square_of_index(from);
        lemma_square_of_index(to);
    }
    OxideMove { simple_move: OxideSimpleMove { from, to }, move_type: kind }
}

/// Appends, for each square of `target_mask`, the four promotions of the
/// pawn of `side` that reaches it: by a capture towards the west or the
/// east, or by a push.
pub fn extend_pawn_promotion(
    move_list: &mut MoveList,
    side: OxideSide,
    target_mask: OxideBitboard,
    capture: bool,
    west: bool,
)
    requires
        old(move_list)@.len() + 256 < MOVE_LIST_LIMIT,
        forall|i: int| target_mask.has(i) ==> has_step_from(i, pawn_way(side, capture, west)),
    ensures
        final(move_list)@ == old(move_list)@ + gather(
            in_set(target_mask.0),
            promotions_to(pawn_way(side, capture, west).delta(), capture),
            64,
        ),
        final(move_list)@.len() <= old(move_list)@.len() + 256,
{
    let ghost start = move_list@;
    let ghost wanted = in_set(target_mask.0);
    let ghost each = promotions_to(pawn_way(side, capture, west).delta(), capture);
    let ghost mut done: nat = 0;
    let mut rest = target_mask;
    move_list.reserve(4 * target_mask.count());
    assert(start + gather(wanted, each, 0) =~= start);
    while rest.0 != 0
        invariant
            done <= 64,
            wanted == in_set(target_mask.0),
            each == promotions_to(pawn_way(side, capture, west).delta(), capture),
            forall|i: int| target_mask.has(i) ==> has_step_from(i, pawn_way(side, capture, west)),
            forall|i: int| rest.has(i) ==> target_mask.has(i) && i >= done,
            forall|i: int| target_mask.has(i) && i >= done ==> rest.has(i),
            move_list@ == start + gather(wanted, each, done),
            move_list@.len() <= start.len() + 4 * done,
            start.len() + 256 < MOVE_LIST_LIMIT,
        decreases count_below(rest.0, 64),
    {
        let ghost before = rest;
        match rest.next() {
            Some(to_square) => {
                proof {
                    lemma_count_without(before.0, rest.0, to_square.index(), 64);
                    lemma_gather_skip(wanted, each, done, to_square.index() as nat);
                }
                let from_square = if capture {
                    reverse_pawn_shift(side, to_square, west)
                } else {
                    reverse_pawn_push(side, to_square)
                };
                let queen = build_move(
                    from_square,
                    to_square,
                    crate::chess_move::promotion_piece_to_move_type(OxidePiece::Queen, capture),
                );
                let knight = build_move(
                    from_square,
                    to_square,
                    crate::chess_move::promotion_piece_to_move_type(OxidePiece::Knight, capture),
                );
                let rook = build_move(
                    from_square,
                    to_square,
                    crate::chess_move::promotion_piece_to_move_type(OxidePiece::Rook, capture),
                );
                let bishop = build_move(
                    from_square,
                    to_square,
                    crate::chess_move::promotion_piece_to_move_type(OxidePiece::Bishop, capture),
                );
                move_list.push(queen);
                move_list.push(knight);
                move_list.push(rook);
                move_list.push(bishop);
                proof {
                    let t = to_square.index();
                    assert(wanted(t));
                    assert(each(t) =~= seq![queen, knight, rook, bishop]);
                    assert(move_list@ =~= start + gather(wanted, each, (t + 1) as nat));
                    done = (t + 1) as nat;
                }
            },
            None => {},
        }
    }
    proof {
        lemma_bit_masks();
        lemma_gather_skip(wanted, each, done, 64);
    }
}

/// The direction of a pawn move of `side`: of a capture towards the west or
/// the east, or of a push.
pub open spec fn pawn_way(side: OxideSide, capture: bool, west: bool) -> Direction {
    if capture {
        pawn_capture_direction(side, west)
    } else {
        pawn_forward(side)
    }
}

/// Appends, for each square of `target_mask`, the push of the pawn of
/// `side` that reaches it: over one square, or over two.
pub fn extend_pawn_pushes(move_list: &mut MoveList, side: OxideSide, target_mask: OxideBitboard, double_jump: bool)
    requires
        old(move_list)@.len() + 64 < MOVE_LIST_LIMIT,
        forall|i: int| target_mask.has(i) ==> has_step_from(i, pawn_forward(side)),
        double_jump ==> forall|i: int|
            target_mask.has(i) ==> has_step_from(step_from(i, pawn_forward(side)), pawn_forward(side)),
    ensures
        final(move_list)@ == old(move_list)@ + gather(
            in_set(target_mask.0),
            pawn_move_to(push_length(side, double_jump), push_kind(double_jump)),
            64,
        ),
        final(move_list)@.len() <= old(move_list)@.len() + 64,
{
    let ghost start = move_list@;
    let ghost wanted = in_set(target_mask.0);
    let ghost each = pawn_move_to(push_length(side, double_jump), push_kind(double_jump));
    let ghost mut done: nat = 0;
    let mut rest = target_mask;
    assert(start + gather(wanted, each, 0) =~= start);
    while rest.0 != 0
        invariant
            done <= 64,
            wanted == in_set(target_mask.0),
            each == pawn_move_to(push_length(side, double_jump), push_kind(double_jump)),
            forall|i: int| target_mask.has(i) ==> has_step_from(i, pawn_forward(side)),
            double_jump ==> forall|i: int|
                target_mask.has(i) ==> has_step_from(step_from(i, pawn_forward(side)), pawn_forward(side)),
            forall|i: int| rest.has(i) ==> target_mask.has(i) && i >= done,
            forall|i: int| target_mask.has(i) && i >= done ==> rest.has(i),
            move_list@ == start + gather(wanted, each, done),
            move_list@.len() <= start.len() + done,
            start.len() + 64 < MOVE_LIST_LIMIT,
        decreases count_below(rest.0, 64),
    {
        let ghost before = rest;
        match rest.next() {
            Some(to_square) => {
                proof {
                    lemma_count_without(before.0, rest.0, to_square.index(), 64);
                    lemma_gather_skip(wanted, each, done, to_square.index() as nat);
                    crate::line::lemma_step_coordinates(to_square.index(), pawn_forward(side));
                }
                let middle = reverse_pawn_push(side, to_square);
                let from_square = if double_jump {
                    reverse_pawn_push(side, middle)
                } else {
                    middle
                };
                let kind = if double_jump {
                    OxideMoveType::DoublePawnPush
                } else {
                    OxideMoveType::Quiet
                };
                let m = build_move(from_square, to_square, kind);
                move_list.push(m);
                proof {
                    let t = to_square.index();
                    assert(wanted(t));
                    assert(each(t) =~= seq![m]);
                    assert(move_list@ =~= start + gather(wanted, each, (t + 1) as nat));
                    done = (t + 1) as nat;
                }
            },
            None => {},
        }
    }
    proof {
        lemma_bit_masks();
        lemma_gather_skip(wanted, each, done, 64);
    }
}

/// How many squares below its target a push of a pawn of `side` starts.
pub open spec fn push_length(side: OxideSide, double_jump: bool) -> int {
    if double_jump {
        2 * pawn_forward(side).delta()
    } else {
        pawn_forward(side).delta()
    }
}

/// The kind of a push over one square, or over two.
pub open spec fn push_kind(double_jump: bool) -> OxideMoveType {
    if double_jump {
        OxideMoveType::DoublePawnPush
    } else {
        OxideMoveType::Quiet
    }
}

/// The kind of a capture by a pawn, in passing or not.
pub open spec fn capture_kind(en_passant_capture: bool) -> OxideMoveType {
    if en_passant_capture {
        OxideMoveType::EnPassantCapture
    } else {
        OxideMoveType::Capture
    }
}

/// Appends, for each square of `target_mask`, the capture by the pawn of
/// `side` that reaches it towards the west, or towards the east.
pub fn extend_pawn_captures(
    move_list: &mut MoveList,
    side: OxideSide,
    target_mask: OxideBitboard,
    en_passant_capture: bool,
    west: bool,
)
    requires
        old(move_list)@.len() + 64 < MOVE_LIST_LIMIT,
        forall|i: int| target_mask.has(i) ==> has_step_from(i, pawn_capture_direction(side, west)),
    ensures
        final(move_list)@ == old(move_list)@ + gather(
            in_set(target_mask.0),
            pawn_move_to(pawn_capture_direction(side, west).delta(), capture_kind(en_passant_capture)),
            64,
        ),
        final(move_list)@.len() <= old(move_list)@.len() + 64,
{
    let ghost start = move_list@;
    let ghost wanted = in_set(target_mask.0);
    let ghost each = pawn_move_to(
        pawn_capture_direction(side, west).delta(),
        capture_kind(en_passant_capture),
    );
    let ghost mut done: nat = 0;
    let mut rest = target_mask;
    assert(start + gather(wanted, each, 0) =~= start);
    while rest.0 != 0
        invariant
            done <= 64,
            wanted == in_set(target_mask.0),
            each == pawn_move_to(
                pawn_capture_direction(side, west).delta(),
                capture_kind(en_passant_capture),
            ),
            forall|i: int| target_mask.has(i) ==> has_step_from(i, pawn_capture_direction(side, west)),
            forall|i: int| rest.has(i) ==> target_mask.has(i) && i >= done,
            forall|i: int| target_mask.has(i) && i >= done ==> rest.has(i),
            move_list@ == start + gather(wanted, each, done),
            move_list@.len() <= start.len() + done,
            start.len() + 64 < MOVE_LIST_LIMIT,
        decreases count_below(rest.0, 64),
    {
        let ghost before = rest;
        match rest.next() {
            Some(to_square) => {
                proof {
                    lemma_count_without(before.0, rest.0, to_square.index(), 64);
                    lemma_gather_skip(wanted, each, done, to_square.index() as nat);
                }
                let from_square = reverse_pawn_shift(side, to_square, west);
                let kind = if en_passant_capture {
                    OxideMoveType::EnPassantCapture
                } else {
                    OxideMoveType::Capture
                };
                let m = build_move(from_square, to_square, kind);
                move_list.push(m);
                proof {
                    let t = to_square.index();
                    assert(wanted(t));
                    assert(each(t) =~= seq![m]);
                    assert(move_list@ =~= start + gather(wanted, each, (t + 1) as nat));
                    done = (t + 1) as nat;
                }
            },
            None => {},
        }
    }
    proof {
        lemma_bit_masks();
        lemma_gather_skip(wanted, each, done, 64);
    }
}

/// Whether square `i` holds a pawn of the side to move.
pub open spec fn own_pawn(pos: OxidePosition, i: int) -> bool {
    on_board(i) && pos.sided_at(i) == OxidePiece::Pawn.with_side(pos.mover())
}

/// The rank from which the pawns of `side` promote with their next step.
pub open spec fn promotion_rank(side: OxideSide) -> int {
    match side {
        OxideSide::White => 6,
        OxideSide::Black => 1,
    }
}

/// The rank on which the pawns of `side` start, and from which they may
/// push over two squares.
pub open spec fn start_rank(side: OxideSide) -> int {
    match side {
        OxideSide::White => 1,
        OxideSide::Black => 6,
    }
}

/// Whether a pawn of the side to move reaches `to` by one step in direction
/// `dir`, from the rank before promotion if `promoting` and from another
/// rank if not.
pub open spec fn pawn_arrives(pos: OxidePosition, to: int, dir: Direction, promoting: bool) -> bool {
    has_step_from(to, dir) && own_pawn(pos, step_from(to, dir)) && ((rank_of(step_from(to, dir))
        == promotion_rank(pos.mover())) == promoting)
}

/// The squares on which a pawn of the side to move captures, towards the
/// west or the east.
pub open spec fn pawn_captures_to(pos: OxidePosition, west: bool, promoting: bool) -> spec_fn(int) -> bool {
    |to: int|
        pawn_arrives(pos, to, pawn_capture_direction(pos.mover(), west), promoting) && is_prey(pos, to)
}

/// The squares to which a pawn of the side to move pushes over one square.
pub open spec fn pawn_pushes_to(pos: OxidePosition, promoting: bool) -> spec_fn(int) -> bool {
    |to: int| pawn_arrives(pos, to, pawn_forward(pos.mover()), promoting) && is_free(pos, to)
}

/// The squares to which a pawn of the side to move pushes over two squares:
/// from its start rank, over a free square, onto a free square.
pub open spec fn pawn_doubles_to(pos: OxidePosition) -> spec_fn(int) -> bool {
    |to: int|
        {
            let forward = pawn_forward(pos.mover());
            let middle = step_from(to, forward);
            let from = step_from(middle, forward);
            is_free(pos, to) && has_step_from(to, forward) && is_free(pos, middle) && has_step_from(
                middle,
                forward,
            ) && own_pawn(pos, from) && rank_of(from) == start_rank(pos.mover())
        }
}

/// Whether `to` is the en-passant square of the position, is free, and has
/// a pawn of the other side right behind it.
pub open spec fn is_en_passant_target(pos: OxidePosition, to: int) -> bool {
    pos.en_passant().is_some() && pos.en_passant().unwrap().index() == to && is_free(pos, to)
        && has_step_from(to, pawn_forward(pos.mover())) && pos.sided_at(
        step_from(to, pawn_forward(pos.mover())),
    ) == OxidePiece::Pawn.with_side(pos.mover().other())
}

/// The squares on which a pawn of the side to move captures in passing.
pub open spec fn en_passant_to(pos: OxidePosition, west: bool) -> spec_fn(int) -> bool {
    |to: int|
        is_en_passant_target(pos, to) && pawn_arrives(
            pos,
            to,
            pawn_capture_direction(pos.mover(), west),
            false,
        )
}

/// The pawns of the side to move that promote with their next step, its
/// other pawns, and the pieces that it can capture.
fn pawn_sets(position: &OxidePosition) -> (r: (OxideBitboard, OxideBitboard, OxideBitboard))
    requires
        position.wf(),
    ensures
        forall|i: int| #[trigger]
            r.0.has(i) == (own_pawn(*position, i) && rank_of(i) == promotion_rank(position.mover())),
        forall|i: int| #[trigger]
            r.1.has(i) == (own_pawn(*position, i) && rank_of(i) != promotion_rank(position.mover())),
        forall|i: int| #[trigger] r.2.has(i) == is_prey(*position, i),
{
    let ghost pos = *position;
    let side_moving = position.side_to_move();
    let kings = position.piece_mask(OxidePiece::King);
    let enemy = position.mask_for_side(side_moving.opposite_side());
    let prey = OxideBitboard(enemy.0 & !kings.0);
    let promoting_from_rank = if side_moving.is_white() {
        OxideBitboard::rank_7()
    } else {
        OxideBitboard::rank_2()
    };
    let pawn_mask = position.sided_piece_mask(OxidePiece::Pawn.add_side(side_moving));
    let promotable_pawns = OxideBitboard(pawn_mask.0 & promoting_from_rank.0);
    let non_promoting_pawns = OxideBitboard(pawn_mask.0 ^ promotable_pawns.0);
    proof {
        lemma_bit_not(kings.0);
        lemma_bit_and(enemy.0, !kings.0);
        lemma_bit_and(pawn_mask.0, promoting_from_rank.0);
        crate::bits::lemma_bit_xor(pawn_mask.0, promotable_pawns.0);
        assert forall|i: int| #[trigger] prey.has(i) == is_prey(pos, i) by {
            if !on_board(i) {
                crate::position::lemma_position_off_board(pos, i);
            }
        }
        assert forall|i: int| #[trigger]
            promotable_pawns.has(i) == (own_pawn(pos, i) && rank_of(i) == promotion_rank(pos.mover())) by {
            if !on_board(i) {
                crate::position::lemma_position_off_board(pos, i);
            }
        }
        assert forall|i: int| #[trigger]
            non_promoting_pawns.has(i) == (own_pawn(pos, i) && rank_of(i) != promotion_rank(pos.mover())) by {
            if !on_board(i) {
                crate::position::lemma_position_off_board(pos, i);
            }
        }
    }
    (promotable_pawns, non_promoting_pawns, prey)
}

/// The promotions of the pawns of the side to move.
pub open spec fn pawn_promotions(pos: OxidePosition) -> Seq<OxideMove> {
    let side = pos.mover();
    gather(pawn_captures_to(pos, true, true), promotions_to(pawn_west(side).delta(), true), 64)
        + gather(pawn_captures_to(pos, false, true), promotions_to(pawn_east(side).delta(), true), 64)
        + gather(pawn_pushes_to(pos, true), promotions_to(pawn_forward(side).delta(), false), 64)
}

/// The pushes of the pawns of the side to move that do not promote.
pub open spec fn pawn_advances(pos: OxidePosition) -> Seq<OxideMove> {
    let forward = pawn_forward(pos.mover()).delta();
    gather(pawn_pushes_to(pos, false), pawn_move_to(forward, OxideMoveType::Quiet), 64) + gather(
        pawn_doubles_to(pos),
        pawn_move_to(2 * forward, OxideMoveType::DoublePawnPush),
        64,
    )
}

/// The captures by the pawns of the side to move that do not promote.
pub open spec fn pawn_takes(pos: OxidePosition) -> Seq<OxideMove> {
    let side = pos.mover();
    gather(
        pawn_captures_to(pos, true, false),
        pawn_move_to(pawn_west(side).delta(), OxideMoveType::Capture),
        64,
    ) + gather(
        pawn_captures_to(pos, false, false),
        pawn_move_to(pawn_east(side).delta(), OxideMoveType::Capture),
        64,
    )
}

/// The captures in passing by the pawns of the side to move.
pub open spec fn pawn_passes(pos: OxidePosition) -> Seq<OxideMove> {
    let side = pos.mover();
    gather(
        en_passant_to(pos, true),
        pawn_move_to(pawn_west(side).delta(), OxideMoveType::EnPassantCapture),
        64,
    ) + gather(
        en_passant_to(pos, false),
        pawn_move_to(pawn_east(side).delta(), OxideMoveType::EnPassantCapture),
        64,
    )
}

/// The moves of the pawns of the side to move: the promotions (by capture
/// towards the west, by capture towards the east, by push), the pushes (over
/// one square, over two), the captures (towards the west, towards the east)
/// and the captures in passing (towards the west, towards the east); each
/// group by target square.
pub open spec fn pawn_moves(pos: OxidePosition) -> Seq<OxideMove> {
    pawn_promotions(pos) + pawn_advances(pos) + pawn_takes(pos) + pawn_passes(pos)
}

/// The squares of `wanted` that are squares of `targets`.
pub open spec fn within(wanted: spec_fn(int) -> bool, targets: u64) -> spec_fn(int) -> bool {
    |to: int| wanted(to) && bit(targets, to)
}

/// The promotions of the pawns of the side to move onto squares of
/// `targets`.
pub open spec fn pawn_promotions_within(pos: OxidePosition, targets: u64) -> Seq<OxideMove> {
    let side = pos.mover();
    gather(within(pawn_captures_to(pos, true, true), targets), promotions_to(pawn_west(side).delta(), true), 64)
        + gather(
        within(pawn_captures_to(pos, false, true), targets),
        promotions_to(pawn_east(side).delta(), true),
        64,
    ) + gather(within(pawn_pushes_to(pos, true), targets), promotions_to(pawn_forward(side).delta(), false), 64)
}

/// The pushes of the pawns of the side to move that do not promote, onto
/// squares of `targets`.
pub open spec fn pawn_advances_within(pos: OxidePosition, targets: u64) -> Seq<OxideMove> {
    let forward = pawn_forward(pos.mover()).delta();
    gather(within(pawn_pushes_to(pos, false), targets), pawn_move_to(forward, OxideMoveType::Quiet), 64)
        + gather(
        within(pawn_doubles_to(pos), targets),
        pawn_move_to(2 * forward, OxideMoveType::DoublePawnPush),
        64,
    )
}

/// The captures by the pawns of the side to move that do not promote, on
/// squares of `targets`.
pub open spec fn pawn_takes_within(pos: OxidePosition, targets: u64) -> Seq<OxideMove> {
    let side = pos.mover();
    gather(
        within(pawn_captures_to(pos, true, false), targets),
        pawn_move_to(pawn_west(side).delta(), OxideMoveType::Capture),
        64,
    ) + gather(
        within(pawn_captures_to(pos, false, false), targets),
        pawn_move_to(pawn_east(side).delta(), OxideMoveType::Capture),
        64,
    )
}

/// The captures in passing by the pawns of the side to move onto squares of
/// `targets`.
pub open spec fn pawn_passes_within(pos: OxidePosition, targets: u64) -> Seq<OxideMove> {
    let side = pos.mover();
    gather(
        within(en_passant_to(pos, true), targets),
        pawn_move_to(pawn_west(side).delta(), OxideMoveType::EnPassantCapture),
        64,
    ) + gather(
        within(en_passant_to(pos, false), targets),
        pawn_move_to(pawn_east(side).delta(), OxideMoveType::EnPassantCapture),
        64,
    )
}

/// The moves of the pawns of the side to move that end on squares of
/// `targets`, in the order of `pawn_moves`.
pub open spec fn pawn_moves_within(pos: OxidePosition, targets: u64) -> Seq<OxideMove> {
    pawn_promotions_within(pos, targets) + pawn_advances_within(pos, targets) + pawn_takes_within(pos, targets)
        + pawn_passes_within(pos, targets)
}

/// With every square as a target a list made square by square is the whole
/// list.
pub proof fn lemma_every_target(wanted: spec_fn(int) -> bool, each: spec_fn(int) -> Seq<OxideMove>)
    ensures
        gather(within(wanted, ALL_SQUARES), each, 64) == gather(wanted, each, 64),
{
    lemma_bit_masks();
    lemma_gather_same(within(wanted, ALL_SQUARES), each, wanted, each, 64);
}

/// With every square as a target no move of a pawn is left out.
pub proof fn lemma_pawn_moves_everywhere(pos: OxidePosition)
    ensures
        pawn_moves_within(pos, ALL_SQUARES) == pawn_moves(pos),
{
    let side = pos.mover();
    let west = pawn_west(side).delta();
    let east = pawn_east(side).delta();
    let forward = pawn_forward(side).delta();
    lemma_every_target(pawn_captures_to(pos, true, true), promotions_to(west, true));
    lemma_every_target(pawn_captures_to(pos, false, true), promotions_to(east, true));
    lemma_every_target(pawn_pushes_to(pos, true), promotions_to(forward, false));
    lemma_every_target(pawn_pushes_to(pos, false), pawn_move_to(forward, OxideMoveType::Quiet));
    lemma_every_target(pawn_doubles_to(pos), pawn_move_to(2 * forward, OxideMoveType::DoublePawnPush));
    lemma_every_target(pawn_captures_to(pos, true, false), pawn_move_to(west, OxideMoveType::Capture));
    lemma_every_target(pawn_captures_to(pos, false, false), pawn_move_to(east, OxideMoveType::Capture));
    lemma_every_target(en_passant_to(pos, true), pawn_move_to(west, OxideMoveType::EnPassantCapture));
    lemma_every_target(en_passant_to(pos, false), pawn_move_to(east, OxideMoveType::EnPassantCapture));
}

/// Appends the promotions of the pawns of the side to move onto squares of
/// `target_mask`: for each pawn that reaches the last rank there, by capture
/// or by push, the four moves that make it a queen, a knight, a rook and a
/// bishop.
pub fn generate_pawn_promotions(board: &OxideBoard, move_list: &mut MoveList, target_mask: OxideBitboard)
    requires
        board.wf(),
        old(move_list)@.len() + 768 < MOVE_LIST_LIMIT,
    ensures
        final(move_list)@ == old(move_list)@ + pawn_promotions_within(board.pos(), target_mask.0),
        final(move_list)@.len() <= old(move_list)@.len() + 768,
{
    let position = board.position();
    let ghost pos = board.pos();
    let ghost start = move_list@;
    let side_moving = position.side_to_move();
    let sets = pawn_sets(position);
    let promotable_pawns = sets.0;
    let prey = sets.2;
    let empty_mask = position.empty();
    let ghost west = pawn_west(side_moving).delta();
    let ghost east = pawn_east(side_moving).delta();
    let ghost forward = pawn_forward(side_moving).delta();
    let west_attacks = pawn_west_attacks(promotable_pawns, side_moving);
    let west_promoting_attacks = OxideBitboard(west_attacks.0 & prey.0);
    proof {
        lemma_bit_and(west_attacks.0, prey.0);
    }
    let west_promoting_attacks_cut = OxideBitboard(west_promoting_attacks.0 & target_mask.0);
    proof {
        lemma_bit_and(west_promoting_attacks.0, target_mask.0);
    }
    extend_pawn_promotion(move_list, side_moving, west_promoting_attacks_cut, true, true);
    let ghost g1 = gather(
        within(pawn_captures_to(pos, true, true), target_mask.0),
        promotions_to(west, true),
        64,
    );
    proof {
        lemma_gather_same(
            in_set(west_promoting_attacks_cut.0),
            promotions_to(west, true),
            within(pawn_captures_to(pos, true, true), target_mask.0),
            promotions_to(west, true),
            64,
        );
    }
    let east_attacks = pawn_east_attacks(promotable_pawns, side_moving);
    let east_promoting_attacks = OxideBitboard(east_attacks.0 & prey.0);
    proof {
        lemma_bit_and(east_attacks.0, prey.0);
    }
    let east_promoting_attacks_cut = OxideBitboard(east_promoting_attacks.0 & target_mask.0);
    proof {
        lemma_bit_and(east_promoting_attacks.0, target_mask.0);
    }
    extend_pawn_promotion(move_list, side_moving, east_promoting_attacks_cut, true, false);
    let ghost g2 = gather(
        within(pawn_captures_to(pos, false, true), target_mask.0),
        promotions_to(east, true),
        64,
    );
    proof {
        lemma_gather_same(
            in_set(east_promoting_attacks_cut.0),
            promotions_to(east, true),
            within(pawn_captures_to(pos, false, true), target_mask.0),
            promotions_to(east, true),
            64,
        );
    }
    let promoting_pushes = pawn_pushes(promotable_pawns, side_moving);
    let push_promotions = OxideBitboard(promoting_pushes.0 & empty_mask.0);
    proof {
        lemma_bit_and(promoting_pushes.0, empty_mask.0);
    }
    let push_promotions_cut = OxideBitboard(push_promotions.0 & target_mask.0);
    proof {
        lemma_bit_and(push_promotions.0, target_mask.0);
    }
    extend_pawn_promotion(move_list, side_moving, push_promotions_cut, false, false);
    let ghost g3 = gather(
        within(pawn_pushes_to(pos, true), target_mask.0),
        promotions_to(forward, false),
        64,
    );
    proof {
        lemma_gather_same(
            in_set(push_promotions_cut.0),
            promotions_to(forward, false),
            within(pawn_pushes_to(pos, true), target_mask.0),
            promotions_to(forward, false),
            64,
        );
        assert(move_list@ =~= start + (g1 + g2 + g3));
    }
}

/// Appends the pushes of the pawns of the side to move that do not
/// promote, onto squares of `target_mask`: over one square, then over two.
pub fn generate_pawn_pushes(board: &OxideBoard, move_list: &mut MoveList, target_mask: OxideBitboard)
    requires
        board.wf(),
        old(move_list)@.len() + 128 < MOVE_LIST_LIMIT,
    ensures
        final(move_list)@ == old(move_list)@ + pawn_advances_within(board.pos(), target_mask.0),
        final(move_list)@.len() <= old(move_list)@.len() + 128,
{
    let position = board.position();
    let ghost pos = board.pos();
    let ghost start = move_list@;
    let side_moving = position.side_to_move();
    let sets = pawn_sets(position);
    let non_promoting_pawns = sets.1;
    let empty_mask = position.empty();
    let en_passant_rank = if side_moving.is_white() {
        OxideBitboard::rank_3()
    } else {
        OxideBitboard::rank_6()
    };
    let ghost forward = pawn_forward(side_moving).delta();
    let single_pushes = pawn_pushes(non_promoting_pawns, side_moving);
    let pawn_pushers = OxideBitboard(single_pushes.0 & empty_mask.0);
    proof {
        lemma_bit_and(single_pushes.0, empty_mask.0);
    }
    let pawn_pushers_cut = OxideBitboard(pawn_pushers.0 & target_mask.0);
    proof {
        lemma_bit_and(pawn_pushers.0, target_mask.0);
    }
    extend_pawn_pushes(move_list, side_moving, pawn_pushers_cut, false);
    let ghost g4 = gather(
        within(pawn_pushes_to(pos, false), target_mask.0),
        pawn_move_to(forward, OxideMoveType::Quiet),
        64,
    );
    proof {
        lemma_gather_same(
            in_set(pawn_pushers_cut.0),
            pawn_move_to(forward, OxideMoveType::Quiet),
            within(pawn_pushes_to(pos, false), target_mask.0),
            pawn_move_to(forward, OxideMoveType::Quiet),
            64,
        );
    }
    let stepping_stones = OxideBitboard(pawn_pushers.0 & en_passant_rank.0);
    let double_pushes = pawn_pushes(stepping_stones, side_moving);
    let double_pawn_pushers = OxideBitboard(double_pushes.0 & empty_mask.0);
    proof {
        lemma_bit_and(pawn_pushers.0, en_passant_rank.0);
        lemma_bit_and(double_pushes.0, empty_mask.0);
        assert forall|i: int| #[trigger] double_pawn_pushers.has(i) == pawn_doubles_to(pos)(i) by {
            let forward_way = pawn_forward(pos.mover());
            if has_step_from(i, forward_way) {
                crate::line::lemma_step_coordinates(i, forward_way);
                let middle = step_from(i, forward_way);
                if has_step_from(middle, forward_way) {
                    crate::line::lemma_step_coordinates(middle, forward_way);
                }
            }
        }
    }
    let double_pawn_pushers_cut = OxideBitboard(double_pawn_pushers.0 & target_mask.0);
    proof {
        lemma_bit_and(double_pawn_pushers.0, target_mask.0);
    }
    extend_pawn_pushes(move_list, side_moving, double_pawn_pushers_cut, true);
    let ghost g5 = gather(
        within(pawn_doubles_to(pos), target_mask.0),
        pawn_move_to(2 * forward, OxideMoveType::DoublePawnPush),
        64,
    );
    proof {
        lemma_gather_same(
            in_set(double_pawn_pushers_cut.0),
            pawn_move_to(2 * forward, OxideMoveType::DoublePawnPush),
            within(pawn_doubles_to(pos), target_mask.0),
            pawn_move_to(2 * forward, OxideMoveType::DoublePawnPush),
            64,
        );
        assert(move_list@ =~= start + (g4 + g5));
    }
}

/// Appends the captures by the pawns of the side to move that do not
/// promote, on squares of `target_mask`: towards the west, then towards the
/// east.
pub fn generate_pawn_captures(board: &OxideBoard, move_list: &mut MoveList, target_mask: OxideBitboard)
    requires
        board.wf(),
        old(move_list)@.len() + 128 < MOVE_LIST_LIMIT,
    ensures
        final(move_list)@ == old(move_list)@ + pawn_takes_within(board.pos(), target_mask.0),
        final(move_list)@.len() <= old(move_list)@.len() + 128,
{
    let position = board.position();
    let ghost pos = board.pos();
    let ghost start = move_list@;
    let side_moving = position.side_to_move();
    let sets = pawn_sets(position);
    let non_promoting_pawns = sets.1;
    let prey = sets.2;
    let ghost west = pawn_west(side_moving).delta();
    let ghost east = pawn_east(side_moving).delta();
    let west_reach = pawn_west_attacks(non_promoting_pawns, side_moving);
    let west_captures = OxideBitboard(west_reach.0 & prey.0);
    proof {
        lemma_bit_and(west_reach.0, prey.0);
    }
    let west_captures_cut = OxideBitboard(west_captures.0 & target_mask.0);
    proof {
        lemma_bit_and(west_captures.0, target_mask.0);
    }
    extend_pawn_captures(move_list, side_moving, west_captures_cut, false, true);
    let ghost g6 = gather(
        within(pawn_captures_to(pos, true, false), target_mask.0),
        pawn_move_to(west, OxideMoveType::Capture),
        64,
    );
    proof {
        lemma_gather_same(
            in_set(west_captures_cut.0),
            pawn_move_to(west, OxideMoveType::Capture),
            within(pawn_captures_to(pos, true, false), target_mask.0),
            pawn_move_to(west, OxideMoveType::Capture),
            64,
        );
    }
    let east_reach = pawn_east_attacks(non_promoting_pawns, side_moving);
    let east_captures = OxideBitboard(east_reach.0 & prey.0);
    proof {
        lemma_bit_and(east_reach.0, prey.0);
    }
    let east_captures_cut = OxideBitboard(east_captures.0 & target_mask.0);
    proof {
        lemma_bit_and(east_captures.0, target_mask.0);
    }
    extend_pawn_captures(move_list, side_moving, east_captures_cut, false, false);
    let ghost g7 = gather(
        within(pawn_captures_to(pos, false, false), target_mask.0),
        pawn_move_to(east, OxideMoveType::Capture),
        64,
    );
    proof {
        lemma_gather_same(
            in_set(east_captures_cut.0),
            pawn_move_to(east, OxideMoveType::Capture),
            within(pawn_captures_to(pos, false, false), target_mask.0),
            pawn_move_to(east, OxideMoveType::Capture),
            64,
        );
        assert(move_list@ =~= start + (g6 + g7));
    }
}

/// Appends the captures in passing by the pawns of the side to move onto
/// squares of `target_mask`: towards the west, then towards the east.
pub fn generate_en_passant_captures(board: &OxideBoard, move_list: &mut MoveList, target_mask: OxideBitboard)
    requires
        board.wf(),
        old(move_list)@.len() + 128 < MOVE_LIST_LIMIT,
    ensures
        final(move_list)@ == old(move_list)@ + pawn_passes_within(board.pos(), target_mask.0),
        final(move_list)@.len() <= old(move_list)@.len() + 128,
{
    let position = board.position();
    let ghost pos = board.pos();
    let ghost start = move_list@;
    let side_moving = position.side_to_move();
    let sets = pawn_sets(position);
    let non_promoting_pawns = sets.1;
    let empty_mask = position.empty();
    let enemy_pawns = position.sided_piece_mask(OxidePiece::Pawn.add_side(side_moving.opposite_side()));
    let en_passant_mask = match position.en_passant_square() {
        Some(square) => square.to_mask(),
        None => OxideBitboard::empty(),
    };
    let ghost west = pawn_west(side_moving).delta();
    let ghost east = pawn_east(side_moving).delta();
    let behind = pawn_pushes(enemy_pawns, side_moving);
    let en_passant_targets = OxideBitboard(en_passant_mask.0 & empty_mask.0 & behind.0);
    proof {
        lemma_bit_and(en_passant_mask.0, empty_mask.0);
        lemma_bit_and(en_passant_mask.0 & empty_mask.0, behind.0);
        assert forall|i: int| #[trigger] en_passant_targets.has(i) == is_en_passant_target(pos, i) by {}
    }
    let west_reach = pawn_west_attacks(non_promoting_pawns, side_moving);
    let west_en_passant = OxideBitboard(west_reach.0 & en_passant_targets.0);
    proof {
        lemma_bit_and(west_reach.0, en_passant_targets.0);
    }
    let west_en_passant_cut = OxideBitboard(west_en_passant.0 & target_mask.0);
    proof {
        lemma_bit_and(west_en_passant.0, target_mask.0);
    }
    extend_pawn_captures(move_list, side_moving, west_en_passant_cut, true, true);
    let ghost g8 = gather(
        within(en_passant_to(pos, true), target_mask.0),
        pawn_move_to(west, OxideMoveType::EnPassantCapture),
        64,
    );
    proof {
        lemma_gather_same(
            in_set(west_en_passant_cut.0),
            pawn_move_to(west, OxideMoveType::EnPassantCapture),
            within(en_passant_to(pos, true), target_mask.0),
            pawn_move_to(west, OxideMoveType::EnPassantCapture),
            64,
        );
    }
    let east_reach = pawn_east_attacks(non_promoting_pawns, side_moving);
    let east_en_passant = OxideBitboard(east_reach.0 & en_passant_targets.0);
    proof {
        lemma_bit_and(east_reach.0, en_passant_targets.0);
    }
    let east_en_passant_cut = OxideBitboard(east_en_passant.0 & target_mask.0);
    proof {
        lemma_bit_and(east_en_passant.0, target_mask.0);
    }
    extend_pawn_captures(move_list, side_moving, east_en_passant_cut, true, false);
    let ghost g9 = gather(
        within(en_passant_to(pos, false), target_mask.0),
        pawn_move_to(east, OxideMoveType::EnPassantCapture),
        64,
    );
    proof {
        lemma_gather_same(
            in_set(east_en_passant_cut.0),
            pawn_move_to(east, OxideMoveType::EnPassantCapture),
            within(en_passant_to(pos, false), target_mask.0),
            pawn_move_to(east, OxideMoveType::EnPassantCapture),
            64,
        );
        assert(move_list@ =~= start + (g8 + g9));
    }
}

/// Appends the moves of the pawns of the side to move that end on squares
/// of `target_mask`.
pub fn generate_pawn_moves(board: &OxideBoard, move_list: &mut MoveList, target_mask: OxideBitboard)
    requires
        board.wf(),
        old(move_list)@.len() + 2048 < MOVE_LIST_LIMIT,
    ensures
        final(move_list)@ == old(move_list)@ + pawn_moves_within(board.pos(), target_mask.0),
        final(move_list)@.len() <= old(move_list)@.len() + 2048,
{
    let ghost start = move_list@;
    let ghost pos = board.pos();
    generate_pawn_promotions(board, move_list, target_mask);
    generate_pawn_pushes(board, move_list, target_mask);
    generate_pawn_captures(board, move_list, target_mask);
    generate_en_passant_captures(board, move_list, target_mask);
    proof {
        assert(move_list@ =~= start + pawn_moves_within(pos, target_mask.0));
    }
}

/// The first square of the king of `side`: E1 or E8.
pub open spec fn king_home(side: OxideSide) -> int {
    match side {
        OxideSide::White => 4,
        OxideSide::Black => 60,
    }
}

/// The castle right of `side` that the castle of kind `kind` needs.
pub open spec fn castle_right(side: OxideSide, kind: OxideMoveType) -> OxideCastleRights {
    match side {
        OxideSide::White => if kind == OxideMoveType::KingSideCastle {
            OxideCastleRights::WhiteKing
        } else {
            OxideCastleRights::WhiteQueen
        },
        OxideSide::Black => if kind == OxideMoveType::KingSideCastle {
            OxideCastleRights::BlackKing
        } else {
            OxideCastleRights::BlackQueen
        },
    }
}

/// Whether the position holds the castle rights of `castle` and every
/// square between those kings and rooks is free.
pub open spec fn path_is_clear(pos: OxidePosition, castle: OxideCastleRights) -> bool {
    pos.rights().includes(castle) && forall|i: int|
        #[trigger] crate::castle::on_castle_path(castle, i) ==> is_free(pos, i)
}

/// Whether the castle is set up for the side to move: it holds the right,
/// king and rook stand on their first squares, and the squares between them
/// are free.
pub open spec fn castle_is_set(pos: OxidePosition, kind: OxideMoveType) -> bool {
    let side = pos.mover();
    let home = king_home(side);
    path_is_clear(pos, castle_right(side, kind)) && pos.sided_at(home) == OxidePiece::King.with_side(
        side,
    ) && pos.sided_at(crate::rules::castle_rook_from(home, kind)) == OxidePiece::Rook.with_side(side)
}

/// The square that the king of `side` reaches after `steps` steps of a
/// castle of kind `kind`: its first square, the square that it passes and
/// the square on which it lands.
pub open spec fn king_way(side: OxideSide, kind: OxideMoveType, steps: int) -> int {
    if kind == OxideMoveType::KingSideCastle {
        king_home(side) + steps
    } else {
        king_home(side) - steps
    }
}

/// Whether the way of the king of `side` in a castle of kind `kind` is
/// safe: no piece of the other side attacks the square on which the king
/// stands, the square that it passes or the square on which it lands.
pub open spec fn king_way_safe(pos: OxidePosition, side: OxideSide, kind: OxideMoveType) -> bool {
    &&& !attacked_by(pos, side.other(), king_way(side, kind, 0))
    &&& !attacked_by(pos, side.other(), king_way(side, kind, 1))
    &&& !attacked_by(pos, side.other(), king_way(side, kind, 2))
}

/// Whether the way of the king is safe in each castle of the rights of
/// `castle`.
pub open spec fn ways_are_safe(pos: OxidePosition, castle: OxideCastleRights) -> bool {
    &&& castle.white_king() ==> king_way_safe(pos, OxideSide::White, OxideMoveType::KingSideCastle)
    &&& castle.white_queen() ==> king_way_safe(pos, OxideSide::White, OxideMoveType::QueenSideCastle)
    &&& castle.black_king() ==> king_way_safe(pos, OxideSide::Black, OxideMoveType::KingSideCastle)
    &&& castle.black_queen() ==> king_way_safe(pos, OxideSide::Black, OxideMoveType::QueenSideCastle)
}

/// Whether the side to move may castle: the castle is set up, and the way
/// of the king is not attacked. (Whether another king of the side is left
/// attacked is the test that every move has to pass.)
pub open spec fn may_castle(pos: OxidePosition, kind: OxideMoveType) -> bool {
    castle_is_set(pos, kind) && king_way_safe(pos, pos.mover(), kind)
}

/// The castle of `side` of kind `kind`.
pub open spec fn castle_move(side: OxideSide, kind: OxideMoveType) -> OxideMove {
    let home = king_home(side);
    OxideMove::of(
        square_of(home),
        square_of(
            if kind == OxideMoveType::KingSideCastle {
                home + 2
            } else {
                home - 2
            },
        ),
        kind,
    )
}

/// The castles that the side to move may make: king-side first.
pub open spec fn castle_moves(pos: OxidePosition) -> Seq<OxideMove> {
    (if may_castle(pos, OxideMoveType::KingSideCastle) {
        seq![castle_move(pos.mover(), OxideMoveType::KingSideCastle)]
    } else {
        Seq::<OxideMove>::empty()
    }) + (if may_castle(pos, OxideMoveType::QueenSideCastle) {
        seq![castle_move(pos.mover(), OxideMoveType::QueenSideCastle)]
    } else {
        Seq::<OxideMove>::empty()
    })
}

/// Whether the position holds the rights of `castle_in_question` and the
/// squares between those kings and rooks are free.
pub fn castle_path_is_clear(board: &OxideBoard, castle_in_question: OxideCastleRights) -> (r: bool)
    requires
        board.wf(),
    ensures
        r == path_is_clear(board.pos(), castle_in_question),
{
    let position = board.position();
    let occupied_mask = position.occupied();
    let path = castle_in_question.castle_path();
    let blocked = OxideBitboard(path.0 & occupied_mask.0);
    proof {
        let pos = board.pos();
        lemma_bit_and(path.0, occupied_mask.0);
        lemma_bit_zero(blocked.0);
        if blocked.0 == 0 {
            assert forall|i: int| #[trigger] crate::castle::on_castle_path(castle_in_question, i) implies is_free(
                pos,
                i,
            ) by {
                assert(path.has(i));
                assert(!blocked.has(i));
            }
        } else {
            let i = choose|i: int| 0 <= i < 64 && blocked.has(i);
            assert(crate::castle::on_castle_path(castle_in_question, i) && !is_free(pos, i));
        }
    }
    position.castle_rights().contains(castle_in_question) && blocked.0 == 0
}

/// Whether no piece of the other side attacks the square on which the king
/// of `side` stands before a castle, the square that it passes or the
/// square on which it lands.
pub fn king_way_is_safe(position: &OxidePosition, side: OxideSide, king_side: bool) -> (r: bool)
    requires
        position.wf(),
    ensures
        r == king_way_safe(
            *position,
            side,
            if king_side {
                OxideMoveType::KingSideCastle
            } else {
                OxideMoveType::QueenSideCastle
            },
        ),
{
    let enemy = side.opposite_side();
    let home: u8 = if side.is_white() {
        4
    } else {
        60
    };
    let passed: u8 = if king_side {
        home + 1
    } else {
        home - 1
    };
    let landing: u8 = if king_side {
        home + 2
    } else {
        home - 2
    };
    !is_attacked_by(position, enemy, OxideSquare::at(home)) && !is_attacked_by(
        position,
        enemy,
        OxideSquare::at(passed),
    ) && !is_attacked_by(position, enemy, OxideSquare::at(landing))
}

/// Whether the castles of `castle_in_question` can be made: the position
/// holds the rights, the squares between those kings and rooks are free, and
/// no square on the way of the king is attacked.
pub fn can_castle(board: &OxideBoard, castle_in_question: OxideCastleRights) -> (r: bool)
    requires
        board.wf(),
    ensures
        r == (path_is_clear(board.pos(), castle_in_question) && ways_are_safe(board.pos(), castle_in_question)),
{
    let position = board.position();
    if !castle_path_is_clear(board, castle_in_question) {
        return false;
    }
    if castle_in_question.has_white_king() && !king_way_is_safe(position, OxideSide::White, true) {
        return false;
    }
    if castle_in_question.has_white_queen() && !king_way_is_safe(position, OxideSide::White, false) {
        return false;
    }
    if castle_in_question.has_black_king() && !king_way_is_safe(position, OxideSide::Black, true) {
        return false;
    }
    if castle_in_question.has_black_queen() && !king_way_is_safe(position, OxideSide::Black, false) {
        return false;
    }
    true
}

/// Appends the castles that the side to move may make: those for which it
/// holds the right, with king and rook on their first squares, the squares
/// between them free and no square on the way of the king attacked.
pub fn generate_castles(board: &OxideBoard, move_list: &mut MoveList)
    requires
        board.wf(),
        old(move_list)@.len() + 2 < MOVE_LIST_LIMIT,
    ensures
        final(move_list)@ == old(move_list)@ + castle_moves(board.pos()),
        final(move_list)@.len() <= old(move_list)@.len() + 2,
{
    let position = board.position();
    let side_moving = position.side_to_move();
    let ghost start = move_list@;
    let ghost pos = board.pos();
    let required_king_rights = OxideCastleRights::BothKings.for_side(side_moving);
    let required_queen_rights = OxideCastleRights::BothQueens.for_side(side_moving);
    let white = side_moving.is_white();
    let home = if white {
        OxideSquare::E1
    } else {
        OxideSquare::E8
    };
    let king_rook = if white {
        OxideSquare::H1
    } else {
        OxideSquare::H8
    };
    let queen_rook = if white {
        OxideSquare::A1
    } else {
        OxideSquare::A8
    };
    let king = OxidePiece::King.add_side(side_moving);
    let rook = OxidePiece::Rook.add_side(side_moving);
    let king_at_home = position.sided_piece_on_square(home) == king;
    proof {
        lemma_square_of_index(OxideSquare::E1);
        lemma_square_of_index(OxideSquare::G1);
        lemma_square_of_index(OxideSquare::C1);
        lemma_square_of_index(OxideSquare::E8);
        lemma_square_of_index(OxideSquare::G8);
        lemma_square_of_index(OxideSquare::C8);
    }
    if king_at_home && position.sided_piece_on_square(king_rook) == rook && can_castle(
        board,
        required_king_rights,
    ) {
        let m = if white {
            OxideMove::white_king_castle()
        } else {
            OxideMove::black_king_castle()
        };
        move_list.push(m);
    }
    let ghost middle = move_list@;
    if king_at_home && position.sided_piece_on_square(queen_rook) == rook && can_castle(
        board,
        required_queen_rights,
    ) {
        let m = if white {
            OxideMove::white_queen_castle()
        } else {
            OxideMove::black_queen_castle()
        };
        move_list.push(m);
    }
    proof {
        assert(move_list@ =~= start + castle_moves(pos));
    }
}

/// The moves that the pieces of the side to move can make, whether or not
/// they leave its king safe: those of the pawns, the knights, the bishops,
/// the rooks, the queens and the king, in that order, and the castles where
/// `castles` asks for them.
pub open spec fn pseudo_moves(pos: OxidePosition, castles: bool) -> Seq<OxideMove> {
    pawn_moves(pos) + piece_moves(pos, OxidePiece::Knight) + piece_moves(pos, OxidePiece::Bishop)
        + piece_moves(pos, OxidePiece::Rook) + piece_moves(pos, OxidePiece::Queen) + piece_moves(
        pos,
        OxidePiece::King,
    ) + (if castles {
        castle_moves(pos)
    } else {
        Seq::<OxideMove>::empty()
    })
}

/// Appends the moves of the king of the side to move onto the squares of
/// `target_mask` that it attacks, castles apart.
pub fn generate_king_moves(board: &OxideBoard, move_list: &mut MoveList, target_mask: OxideBitboard)
    requires
        board.wf(),
        old(move_list)@.len() + 4096 < MOVE_LIST_LIMIT,
    ensures
        final(move_list)@ == old(move_list)@ + piece_moves_onto(board.pos(), OxidePiece::King, target_mask.0),
        final(move_list)@.len() <= old(move_list)@.len() + 4096,
{
    generate_piece_moves(board, move_list, OxidePiece::King, target_mask);
}

/// The moves that the pieces of the side to move can make onto squares of
/// `targets`, in the order of `pseudo_moves`. The castles are not cut down.
pub open spec fn pseudo_moves_within(pos: OxidePosition, castles: bool, targets: u64) -> Seq<OxideMove> {
    pawn_moves_within(pos, targets) + piece_moves_within(pos, OxidePiece::Knight, targets) + piece_moves_within(
        pos,
        OxidePiece::Bishop,
        targets,
    ) + piece_moves_within(pos, OxidePiece::Rook, targets) + piece_moves_within(pos, OxidePiece::Queen, targets)
        + piece_moves_within(pos, OxidePiece::King, targets) + (if castles {
        castle_moves(pos)
    } else {
        Seq::<OxideMove>::empty()
    })
}

/// With every square as a target no move is left out.
pub proof fn lemma_moves_everywhere(pos: OxidePosition, castles: bool)
    ensures
        pseudo_moves_within(pos, castles, ALL_SQUARES) == pseudo_moves(pos, castles),
{
    lemma_pawn_moves_everywhere(pos);
    lemma_whole_board_limits_nothing(pos, OxidePiece::Knight);
    lemma_whole_board_limits_nothing(pos, OxidePiece::Bishop);
    lemma_whole_board_limits_nothing(pos, OxidePiece::Rook);
    lemma_whole_board_limits_nothing(pos, OxidePiece::Queen);
    lemma_whole_board_limits_nothing(pos, OxidePiece::King);
}

/// Appends every move that the pieces of the side to move can make onto a
/// square of `target_mask`, and the castles if they are asked for. With
/// every square as a target these are all moves that the pieces can make.
pub fn generate_all(
    board: &OxideBoard,
    move_list: &mut MoveList,
    target_mask: OxideBitboard,
    include_castles: bool,
)
    requires
        board.wf(),
        old(move_list)@.len() + 32768 < MOVE_LIST_LIMIT,
    ensures
        final(move_list)@ == old(move_list)@ + pseudo_moves_within(board.pos(), include_castles, target_mask.0),
        target_mask.0 == ALL_SQUARES ==> final(move_list)@ == old(move_list)@ + pseudo_moves(
            board.pos(),
            include_castles,
        ),
        final(move_list)@.len() <= old(move_list)@.len() + 32768,
{
    let ghost start = move_list@;
    let ghost pos = board.pos();
    let open_mask = target_squares(board.position());
    let open_targets = OxideBitboard(open_mask.0 & target_mask.0);
    proof {
        lemma_bit_and(open_mask.0, target_mask.0);
        lemma_open_targets(pos, OxidePiece::Knight, target_mask.0, open_targets.0);
        lemma_open_targets(pos, OxidePiece::Bishop, target_mask.0, open_targets.0);
        lemma_open_targets(pos, OxidePiece::Rook, target_mask.0, open_targets.0);
        lemma_open_targets(pos, OxidePiece::Queen, target_mask.0, open_targets.0);
        lemma_open_targets(pos, OxidePiece::King, target_mask.0, open_targets.0);
    }
    generate_pawn_moves(board, move_list, target_mask);
    generate_piece_moves(board, move_list, OxidePiece::Knight, open_targets);
    generate_piece_moves(board, move_list, OxidePiece::Bishop, open_targets);
    generate_piece_moves(board, move_list, OxidePiece::Rook, open_targets);
    generate_piece_moves(board, move_list, OxidePiece::Queen, open_targets);
    generate_king_moves(board, move_list, open_targets);
    if include_castles {
        generate_castles(board, move_list);
    }
    proof {
        assert(move_list@ =~= start + pseudo_moves_within(pos, include_castles, target_mask.0));
        lemma_moves_everywhere(pos, include_castles);
    }
}

} // verus!
