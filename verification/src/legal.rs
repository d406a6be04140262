//! The legal moves: the generated moves that leave the king of the side to
//! move safe.
use vstd::prelude::*;
use crate::attacks::{pawn_east, pawn_forward, pawn_west};
use crate::bitboard::OxideBitboard;
use crate::board::OxideBoard;
use crate::chess_move::{OxideMove, OxideMoveType};
use crate::gather::{gather, lemma_concat_holds, lemma_gather_holds, lemma_in_concat};
use crate::generated::{
    is_pseudo_legal, lemma_generated_groups, lemma_generated_kinds,
    lemma_generated_moves_follow_the_rules, lemma_pawn_promotions, lemma_promotion_group,
    lemma_pseudo_list_is_short, lemma_pseudo_moves_can_be_placed,
};
use crate::movegen::{generate_all, pawn_captures_to, pawn_pushes_to, promotions_to, pseudo_moves};
use crate::movelist::{MOVE_LIST_LIMIT, MoveList};
use crate::piece::OxidePiece;
use crate::pins::lemma_free_piece_leaves_king_safe;
use crate::position::OxidePosition;
use crate::rules::{can_place, checks, is_castle, is_safe_move, king_attacked, leaves_king_safe};

verus! {

/// The moves that leave the king of the side to move safe.
pub open spec fn safe_on(pos: OxidePosition) -> spec_fn(OxideMove) -> bool {
    |m: OxideMove| is_safe_move(pos, m)
}

/// The moves that capture, or those that do not.
pub open spec fn capturing(captures: bool) -> spec_fn(OxideMove) -> bool {
    |m: OxideMove| m.move_type.captures() == captures
}

/// The moves that give check.
pub open spec fn checking_on(pos: OxidePosition) -> spec_fn(OxideMove) -> bool {
    |m: OxideMove| checks(pos, m)
}

/// The legal moves of the side to move when its king is attacked: the
/// generated moves, castles apart, that leave the king safe.
pub open spec fn evasions_of(pos: OxidePosition) -> Seq<OxideMove> {
    pseudo_moves(pos, false).filter(safe_on(pos))
}

/// The legal moves of the side to move when its king is not attacked: the
/// generated moves, castles among them, that leave the king safe.
pub open spec fn non_evasions_of(pos: OxidePosition) -> Seq<OxideMove> {
    pseudo_moves(pos, true).filter(safe_on(pos))
}

/// The legal moves of the side to move, in the order of their generation.
pub open spec fn legal_moves_of(pos: OxidePosition) -> Seq<OxideMove> {
    if king_attacked(pos, pos.mover()) {
        evasions_of(pos)
    } else {
        non_evasions_of(pos)
    }
}

/// Whether the move leaves the king of the side to move safe: the test that
/// every generated move has to pass. The move is made on a copy of the
/// board and the king looked at, but for one case in which the answer is
/// known to be yes without that: where the king is not attacked, a piece
/// that is not pinned leaves it safe wherever it goes, unless the piece is
/// the king itself or captures in passing.
pub fn pseudo_legal_filter(board: &OxideBoard, chess_move: &OxideMove) -> (r: bool)
    requires
        board.wf(),
        can_place(board.pos(), *chess_move),
    ensures
        r == is_safe_move(board.pos(), *chess_move),
{
    let position = board.position();
    let from = chess_move.from();
    let pinned = board.state().blocking_mask(position.side_to_move());
    if !board.in_check() && !chess_move.is_en_passant_capture() && position.piece_on_square(from)
        != OxidePiece::King && !pinned.contains(from) {
        proof {
            lemma_free_piece_leaves_king_safe(board.pos(), *chess_move);
        }
        return true;
    }
    board.is_safe(chess_move)
}

/// The moves of `candidates` that leave the king of the side to move safe.
fn keep_legal(board: &OxideBoard, candidates: &MoveList) -> (r: MoveList)
    requires
        board.wf(),
        candidates@.len() < MOVE_LIST_LIMIT,
        forall|k: int| 0 <= k < candidates@.len() ==> can_place(board.pos(), #[trigger] candidates@[k]),
    ensures
        r@ == candidates@.filter(safe_on(board.pos())),
{
    let ghost pos = board.pos();
    let ghost all = candidates@;
    let n = candidates.len();
    let mut out = MoveList::new();
    let mut i: usize = 0;
    proof {
        reveal(Seq::filter);
        assert(all.take(0) =~= Seq::<OxideMove>::empty());
    }
    while i < n
        invariant
            i <= n,
            n == all.len(),
            all == candidates@,
            n < MOVE_LIST_LIMIT,
            board.wf(),
            pos == board.pos(),
            forall|k: int| 0 <= k < all.len() ==> can_place(pos, #[trigger] all[k]),
            out@ == all.take(i as int).filter(safe_on(pos)),
            out@.len() <= i,
        decreases n - i,
    {
        match candidates.get(i) {
            Some(m) => {
                let keep = pseudo_legal_filter(board, &m);
                proof {
                    reveal(Seq::filter);
                    assert(all.take(i + 1).drop_last() =~= all.take(i as int));
                    assert(all.take(i + 1).last() == m);
                }
                if keep {
                    out.push(m);
                }
            },
            None => {},
        }
        i = i + 1;
    }
    proof {
        assert(all.take(n as int) =~= all);
    }
    out
}

/// The moves of `candidates` that capture, or those that do not.
fn keep_by_capture(candidates: &MoveList, captures: bool) -> (r: MoveList)
    requires
        candidates@.len() < MOVE_LIST_LIMIT,
    ensures
        r@ == candidates@.filter(capturing(captures)),
{
    let ghost all = candidates@;
    let n = candidates.len();
    let mut out = MoveList::new();
    let mut i: usize = 0;
    proof {
        reveal(Seq::filter);
        assert(all.take(0) =~= Seq::<OxideMove>::empty());
    }
    while i < n
        invariant
            i <= n,
            n == all.len(),
            all == candidates@,
            n < MOVE_LIST_LIMIT,
            out@ == all.take(i as int).filter(capturing(captures)),
            out@.len() <= i,
        decreases n - i,
    {
        match candidates.get(i) {
            Some(m) => {
                proof {
                    reveal(Seq::filter);
                    assert(all.take(i + 1).drop_last() =~= all.take(i as int));
                    assert(all.take(i + 1).last() == m);
                }
                if m.is_capture() == captures {
                    out.push(m);
                }
            },
            None => {},
        }
        i = i + 1;
    }
    proof {
        assert(all.take(n as int) =~= all);
    }
    out
}

/// The moves of `candidates` that give check.
fn keep_checks(board: &OxideBoard, candidates: &MoveList) -> (r: MoveList)
    requires
        board.wf(),
        candidates@.len() < MOVE_LIST_LIMIT,
        forall|k: int| 0 <= k < candidates@.len() ==> can_place(board.pos(), #[trigger] candidates@[k]),
    ensures
        r@ == candidates@.filter(checking_on(board.pos())),
{
    let ghost pos = board.pos();
    let ghost all = candidates@;
    let n = candidates.len();
    let mut out = MoveList::new();
    let mut i: usize = 0;
    proof {
        reveal(Seq::filter);
        assert(all.take(0) =~= Seq::<OxideMove>::empty());
    }
    while i < n
        invariant
            i <= n,
            n == all.len(),
            all == candidates@,
            n < MOVE_LIST_LIMIT,
            board.wf(),
            pos == board.pos(),
            forall|k: int| 0 <= k < all.len() ==> can_place(pos, #[trigger] all[k]),
            out@ == all.take(i as int).filter(checking_on(pos)),
            out@.len() <= i,
        decreases n - i,
    {
        match candidates.get(i) {
            Some(m) => {
                let keep = board.gives_check(&m);
                proof {
                    reveal(Seq::filter);
                    assert(all.take(i + 1).drop_last() =~= all.take(i as int));
                    assert(all.take(i + 1).last() == m);
                }
                if keep {
                    out.push(m);
                }
            },
            None => {},
        }
        i = i + 1;
    }
    proof {
        assert(all.take(n as int) =~= all);
    }
    out
}

/// What holds of every move of a list of legal moves: its pieces can be
/// placed, and it leaves the king of the side to move safe.
pub open spec fn all_legal(pos: OxidePosition, moves: Seq<OxideMove>) -> bool {
    forall|k: int|
        0 <= k < moves.len() ==> can_place(pos, #[trigger] moves[k]) && is_safe_move(pos, moves[k])
            && leaves_king_safe(pos, moves[k])
}

/// No move that passes the test of legality leaves the mover's own king
/// attacked: of every move of the generated moves that are kept, the pieces
/// can be placed and the king is safe once they are.
pub proof fn lemma_kept_moves_are_safe(pos: OxidePosition, castles: bool)
    requires
        pos.wf(),
    ensures
        all_legal(pos, pseudo_moves(pos, castles).filter(safe_on(pos))),
{
    let all = pseudo_moves(pos, castles);
    let kept = all.filter(safe_on(pos));
    lemma_pseudo_moves_can_be_placed(pos, castles);
    assert forall|k: int| 0 <= k < kept.len() implies can_place(pos, #[trigger] kept[k]) && is_safe_move(
        pos,
        kept[k],
    ) && leaves_king_safe(pos, kept[k]) by {
        all.lemma_filter_pred(safe_on(pos), k);
        assert(kept.contains(kept[k]));
        all.lemma_filter_contains_rev(safe_on(pos), kept[k]);
    }
}

/// No self-check: in whatever position a legal move leaves the pieces, no
/// king of the side that made the move is attacked.
pub proof fn lemma_legal_move_keeps_king_safe(pos: OxidePosition, m: OxideMove, after: OxidePosition)
    requires
        pos.wf(),
        legal_moves_of(pos).contains(m),
        crate::rules::is_moved(pos, m, after),
    ensures
        can_place(pos, m),
        !king_attacked(after, pos.mover()),
{
    let castles = !king_attacked(pos, pos.mover());
    let all = pseudo_moves(pos, castles);
    let kept = all.filter(safe_on(pos));
    lemma_kept_moves_are_safe(pos, castles);
    let k = choose|k: int| 0 <= k < kept.len() && kept[k] == m;
    assert(can_place(pos, kept[k]) && leaves_king_safe(pos, kept[k]));
    crate::rules::lemma_moved(pos, m, after);
}

/// Whether the move is legal: a piece of the side to move can make it by
/// the rules of movement, it leaves no king of that side attacked, a castle
/// does not start from or pass over an attacked square, and no castle is
/// made while a king of that side is attacked.
pub open spec fn is_legal_move(pos: OxidePosition, m: OxideMove) -> bool {
    is_pseudo_legal(pos, m) && is_safe_move(pos, m) && (king_attacked(pos, pos.mover()) ==> !is_castle(
        m.move_type,
    ))
}

/// The list of legal moves holds exactly the legal moves.
pub proof fn lemma_legal_moves_follow_the_rules(pos: OxidePosition, m: OxideMove)
    requires
        pos.wf(),
    ensures
        legal_moves_of(pos).contains(m) == is_legal_move(pos, m),
{
    let castles = !king_attacked(pos, pos.mover());
    let all = pseudo_moves(pos, castles);
    let kept = all.filter(safe_on(pos));
    lemma_generated_moves_follow_the_rules(pos, m);
    if kept.contains(m) {
        all.lemma_filter_contains_rev(safe_on(pos), m);
        let k = choose|k: int| 0 <= k < kept.len() && kept[k] == m;
        all.lemma_filter_pred(safe_on(pos), k);
    }
    if is_legal_move(pos, m) {
        let j = choose|j: int| 0 <= j < all.len() && all[j] == m;
        all.lemma_filter_contains(safe_on(pos), j);
    }
}

/// No legal move is listed twice.
pub proof fn lemma_legal_moves_no_duplicates(pos: OxidePosition)
    requires
        pos.wf(),
    ensures
        legal_moves_of(pos).no_duplicates(),
{
    let castles = !king_attacked(pos, pos.mover());
    crate::generated::lemma_generated_moves_no_duplicates(pos, castles);
    crate::gather::lemma_filter_no_duplicates(pseudo_moves(pos, castles), safe_on(pos));
}

/// Promotions of one pawn onto one square all capture, or none does: which
/// it is depends on whether the square holds a piece. So the promotions that
/// `lemma_promotions_come_in_fours` names are all the promotions of that
/// pawn onto that square.
pub proof fn lemma_promotions_agree_on_capture(pos: OxidePosition, m: OxideMove, other: OxideMove)
    requires
        pos.wf(),
        legal_moves_of(pos).contains(m),
        legal_moves_of(pos).contains(other),
        m.move_type.promotes(),
        other.move_type.promotes(),
        other.simple_move == m.simple_move,
    ensures
        other.move_type.captures() == m.move_type.captures(),
        other == OxideMove::of(
            m.simple_move.from,
            m.simple_move.to,
            OxideMoveType::of_promotion(other.move_type.promoted(), m.move_type.captures()),
        ),
{
    lemma_legal_moves_follow_the_rules(pos, m);
    lemma_legal_moves_follow_the_rules(pos, other);
    lemma_generated_moves_follow_the_rules(pos, m);
    lemma_generated_moves_follow_the_rules(pos, other);
    crate::generated::lemma_pseudo_moves_can_be_placed(pos, true);
}

/// The moves that meet a check: the generated moves, castles apart, that
/// leave the king safe. Where the king of the side to move is attacked,
/// these are its legal moves.
pub fn evasion_moves(board: &OxideBoard) -> (r: MoveList)
    requires
        board.wf(),
    ensures
        r@ == evasions_of(board.pos()),
        king_attacked(board.pos(), board.pos().mover()) ==> r@ == legal_moves_of(board.pos()),
        all_legal(board.pos(), r@),
{
    let mut move_list = MoveList::new();
    generate_all(board, &mut move_list, OxideBitboard::full(), false);
    proof {
        let pos = board.pos();
        lemma_pseudo_moves_can_be_placed(pos, false);
        lemma_kept_moves_are_safe(pos, false);
        assert(move_list@ =~= pseudo_moves(pos, false));
        assert forall|k: int| 0 <= k < move_list@.len() implies can_place(pos, #[trigger] move_list@[k]) by {
            assert(pseudo_moves(pos, false).contains(move_list@[k]));
        }
    }
    keep_legal(board, &move_list)
}

/// The moves of a side that is not in check: the generated moves, castles
/// among them, that leave the king safe. Where the king of the side to move
/// is not attacked, these are its legal moves.
pub fn non_evasion_moves(board: &OxideBoard) -> (r: MoveList)
    requires
        board.wf(),
    ensures
        r@ == non_evasions_of(board.pos()),
        !king_attacked(board.pos(), board.pos().mover()) ==> r@ == legal_moves_of(board.pos()),
        all_legal(board.pos(), r@),
{
    let mut move_list = MoveList::new();
    generate_all(board, &mut move_list, OxideBitboard::full(), true);
    proof {
        let pos = board.pos();
        lemma_pseudo_moves_can_be_placed(pos, true);
        lemma_kept_moves_are_safe(pos, true);
        assert(move_list@ =~= pseudo_moves(pos, true));
        assert forall|k: int| 0 <= k < move_list@.len() implies can_place(pos, #[trigger] move_list@[k]) by {
            assert(pseudo_moves(pos, true).contains(move_list@[k]));
        }
    }
    keep_legal(board, &move_list)
}

/// The legal moves of the side to move, in the order of their generation.
/// Making any of them never leaves the mover's own king attacked.
pub fn legal_moves(board: &OxideBoard) -> (r: MoveList)
    requires
        board.wf(),
    ensures
        r@ == legal_moves_of(board.pos()),
        forall|m: OxideMove| #[trigger] r@.contains(m) == is_legal_move(board.pos(), m),
        r@.no_duplicates(),
        all_legal(board.pos(), r@),
        r@.len() < MOVE_LIST_LIMIT,
{
    let r = if board.in_check() {
        evasion_moves(board)
    } else {
        non_evasion_moves(board)
    };
    proof {
        let pos = board.pos();
        assert forall|m: OxideMove| #[trigger] r@.contains(m) == is_legal_move(pos, m) by {
            lemma_legal_moves_follow_the_rules(pos, m);
        }
        lemma_legal_moves_no_duplicates(pos);
        lemma_pseudo_list_is_short(pos, true);
        lemma_pseudo_list_is_short(pos, false);
        pseudo_moves(pos, true).lemma_filter_len(safe_on(pos));
        pseudo_moves(pos, false).lemma_filter_len(safe_on(pos));
    }
    r
}

/// The legal moves that capture.
pub fn capture_moves(board: &OxideBoard) -> (r: MoveList)
    requires
        board.wf(),
    ensures
        r@ == legal_moves_of(board.pos()).filter(capturing(true)),
{
    let legal = legal_moves(board);
    keep_by_capture(&legal, true)
}

/// The legal moves that do not capture.
pub fn quiet_moves(board: &OxideBoard) -> (r: MoveList)
    requires
        board.wf(),
    ensures
        r@ == legal_moves_of(board.pos()).filter(capturing(false)),
{
    let legal = legal_moves(board);
    keep_by_capture(&legal, false)
}

/// The legal moves that do not capture and give check.
pub fn quiet_check_moves(board: &OxideBoard) -> (r: MoveList)
    requires
        board.wf(),
    ensures
        r@ == legal_moves_of(board.pos()).filter(capturing(false)).filter(checking_on(board.pos())),
{
    let legal = legal_moves(board);
    let quiet = keep_by_capture(&legal, false);
    proof {
        let pos = board.pos();
        legal@.lemma_filter_len(capturing(false));
        assert forall|k: int| 0 <= k < quiet@.len() implies can_place(pos, #[trigger] quiet@[k]) by {
            assert(quiet@.contains(quiet@[k]));
            legal@.lemma_filter_contains_rev(capturing(false), quiet@[k]);
            let j = choose|j: int| 0 <= j < legal@.len() && legal@[j] == quiet@[k];
            assert(can_place(pos, legal@[j]));
        }
    }
    keep_checks(board, &quiet)
}

/// Promotions come in fours: with every legal promotion of a pawn, by push
/// or by capture, the promotions of that pawn on that square to the queen,
/// the knight, the rook and the bishop are all legal.
pub proof fn lemma_promotions_come_in_fours(pos: OxidePosition, m: OxideMove, piece: OxidePiece)
    requires
        pos.wf(),
        legal_moves_of(pos).contains(m),
        m.move_type.promotes(),
        crate::chess_move::is_promotion_piece(piece),
    ensures
        legal_moves_of(pos).contains(
            OxideMove::of(
                m.simple_move.from,
                m.simple_move.to,
                OxideMoveType::of_promotion(piece, m.move_type.captures()),
            ),
        ),
{
    let castles = !king_attacked(pos, pos.mover());
    let all = pseudo_moves(pos, castles);
    let capture = m.move_type.captures();
    let other = OxideMove::of(m.simple_move.from, m.simple_move.to, OxideMoveType::of_promotion(piece, capture));
    all.lemma_filter_contains_rev(safe_on(pos), m);
    let k = choose|k: int| 0 <= k < all.filter(safe_on(pos)).len() && all.filter(safe_on(pos))[k] == m;
    all.lemma_filter_pred(safe_on(pos), k);
    lemma_generated_kinds(pos, castles, m);
    lemma_pawn_promotions(pos, m);
    crate::rules::lemma_promotion_safety(pos, m, other);
    // The other promotion is generated too.
    let side = pos.mover();
    let a = gather(pawn_captures_to(pos, true, true), promotions_to(pawn_west(side).delta(), true), 64);
    let b = gather(pawn_captures_to(pos, false, true), promotions_to(pawn_east(side).delta(), true), 64);
    let c = gather(pawn_pushes_to(pos, true), promotions_to(pawn_forward(side).delta(), false), 64);
    lemma_in_concat(a + b, c, m);
    if (a + b).contains(m) {
        lemma_in_concat(a, b, m);
        if a.contains(m) {
            let to = lemma_promotion_group(pawn_captures_to(pos, true, true), pawn_west(side).delta(), true, m);
            let four = promotions_to(pawn_west(side).delta(), true)(to);
            assert(four[0] == other || four[1] == other || four[2] == other || four[3] == other);
            lemma_gather_holds(
                pawn_captures_to(pos, true, true),
                promotions_to(pawn_west(side).delta(), true),
                64,
                to,
                other,
            );
        } else {
            let to = lemma_promotion_group(pawn_captures_to(pos, false, true), pawn_east(side).delta(), true, m);
            let four = promotions_to(pawn_east(side).delta(), true)(to);
            assert(four[0] == other || four[1] == other || four[2] == other || four[3] == other);
            lemma_gather_holds(
                pawn_captures_to(pos, false, true),
                promotions_to(pawn_east(side).delta(), true),
                64,
                to,
                other,
            );
        }
        lemma_concat_holds(a, b, other);
        lemma_concat_holds(a + b, c, other);
    } else {
        let to = lemma_promotion_group(pawn_pushes_to(pos, true), pawn_forward(side).delta(), false, m);
        let four = promotions_to(pawn_forward(side).delta(), false)(to);
        assert(four[0] == other || four[1] == other || four[2] == other || four[3] == other);
        lemma_gather_holds(
            pawn_pushes_to(pos, true),
            promotions_to(pawn_forward(side).delta(), false),
            64,
            to,
            other,
        );
        lemma_concat_holds(a + b, c, other);
    }
    lemma_generated_groups(pos, castles, other);
    let j = choose|j: int| 0 <= j < all.len() && all[j] == other;
    all.lemma_filter_contains(safe_on(pos), j);
}

} // verus!
