//! What the moves of a game do to a position, and which squares are attacked.
//!
//! Everything here is stated on squares and pieces; the functions that
//! compute are in the modules of the board and of the move generator, and
//! their contracts are stated with the definitions of this module.
use vstd::prelude::*;
use crate::attacks::{pawn_hits, piece_hits};
use crate::bits::{file_of, on_board, rank_of};
use crate::castle::OxideCastleRights;
use crate::chess_move::{OxideMove, OxideMoveType};
use crate::piece::{OxidePiece, OxideSidedPiece};
use crate::position::{OxidePosition, lemma_position_ext};
use crate::side::OxideSide;
use crate::square::OxideSquare;
use crate::zobrist::is_en_passant_square;

verus! {

/// The set that holds square `i` alone.
pub open spec fn single(i: int) -> u64 {
    1u64 << (i as u64)
}

/// Whether the piece `piece`, standing on `from`, attacks `to` when the
/// squares of `occupied` hold pieces.
pub open spec fn piece_attacks(piece: OxideSidedPiece, from: int, occupied: u64, to: int) -> bool {
    on_board(from) && piece != OxideSidedPiece::Empty && (if piece.kind() == OxidePiece::Pawn {
        pawn_hits(single(from), piece.owner(), to)
    } else {
        piece_hits(piece.kind(), single(from), occupied, to)
    })
}

/// Whether the piece on square `from` of `pos` attacks square `to`.
pub open spec fn square_attacks(pos: OxidePosition, from: int, to: int) -> bool {
    piece_attacks(pos.sided_at(from), from, pos.occupancy(), to)
}

/// Whether square `from` holds a piece of `side`.
pub open spec fn holds_side(pos: OxidePosition, side: OxideSide, from: int) -> bool {
    on_board(from) && pos.sided_at(from) != OxideSidedPiece::Empty && pos.sided_at(from).owner() == side
}

/// Whether some piece of `side` attacks square `to`.
pub open spec fn attacked_by(pos: OxidePosition, side: OxideSide, to: int) -> bool {
    exists|from: int| #[trigger] holds_side(pos, side, from) && square_attacks(pos, from, to)
}

/// Whether the piece on `from` attacks a king of `side`.
pub open spec fn attacks_king(pos: OxidePosition, side: OxideSide, from: int) -> bool {
    exists|k: int| #[trigger] pos.king_at(side, k) && square_attacks(pos, from, k)
}

/// Whether a king of `side` is attacked by a piece of the other side.
pub open spec fn king_attacked(pos: OxidePosition, side: OxideSide) -> bool {
    exists|from: int| #[trigger]
        holds_side(pos, side.other(), from) && attacks_king(pos, side, from)
}

/// The square of the pawn that an en-passant capture from `from` to `to`
/// takes: on the rank of `from` and the file of `to`.
pub open spec fn en_passant_victim(from: int, to: int) -> int {
    rank_of(from) * 8 + file_of(to)
}

/// The square from which the rook leaves in a castle of the king on `from`.
pub open spec fn castle_rook_from(from: int, kind: OxideMoveType) -> int {
    if kind == OxideMoveType::KingSideCastle {
        from + 3
    } else {
        from - 4
    }
}

/// The square on which the rook lands in a castle of the king on `from`.
pub open spec fn castle_rook_to(from: int, kind: OxideMoveType) -> int {
    if kind == OxideMoveType::KingSideCastle {
        from + 1
    } else {
        from - 1
    }
}

/// Whether `kind` is one of the two castles.
pub open spec fn is_castle(kind: OxideMoveType) -> bool {
    kind == OxideMoveType::KingSideCastle || kind == OxideMoveType::QueenSideCastle
}

/// Whether the pieces of the move can be placed on the position: the pieces
/// that it speaks of stand where it needs them, and the squares that it
/// fills are free. Nothing is said about whether the piece may move so.
pub open spec fn can_place(pos: OxidePosition, m: OxideMove) -> bool {
    let from = m.source();
    let to = m.target();
    let kind = m.move_type;
    let moving = pos.sided_at(from);
    let mover = pos.mover();
    &&& from != to
    &&& moving != OxideSidedPiece::Empty
    &&& moving.owner() == mover
    &&& (kind.promotes() ==> moving.kind() == OxidePiece::Pawn)
    &&& (kind == OxideMoveType::DoublePawnPush ==> moving.kind() == OxidePiece::Pawn
        && is_en_passant_square((from + to) / 2) && (from + to) % 2 == 0)
    &&& (if kind == OxideMoveType::EnPassantCapture {
        let victim = en_passant_victim(from, to);
        &&& pos.sided_at(to) == OxideSidedPiece::Empty
        &&& moving.kind() == OxidePiece::Pawn
        &&& victim != from
        &&& victim != to
        &&& pos.sided_at(victim) == OxidePiece::Pawn.with_side(mover.other())
    } else if kind.captures() {
        &&& pos.sided_at(to) != OxideSidedPiece::Empty
        &&& pos.sided_at(to).owner() == mover.other()
        &&& pos.sided_at(to).kind() != OxidePiece::King
    } else {
        pos.sided_at(to) == OxideSidedPiece::Empty
    })
    &&& (is_castle(kind) ==> {
        &&& moving.kind() == OxidePiece::King
        &&& on_board(castle_rook_from(from, kind))
        &&& on_board(castle_rook_to(from, kind))
        &&& castle_rook_to(from, kind) != to
        &&& castle_rook_from(from, kind) != to
        &&& pos.sided_at(castle_rook_from(from, kind)) == OxidePiece::Rook.with_side(mover)
        &&& pos.sided_at(castle_rook_to(from, kind)) == OxideSidedPiece::Empty
    })
}

/// Whether the move can be made on the position: its pieces can be placed,
/// and the counters that the move raises do not stand at the limit of their
/// type. The number of half moves is raised by every move, the half-move
/// clock by every move that neither moves a pawn nor captures.
pub open spec fn can_apply(pos: OxidePosition, m: OxideMove) -> bool {
    can_place(pos, m) && pos.plies() < 65535 && (resets_clock(pos, m) || pos.clock() < 255)
}

/// The piece that the move takes off the board, `Empty` if it is no capture.
pub open spec fn captured_by(pos: OxidePosition, m: OxideMove) -> OxideSidedPiece {
    if m.move_type == OxideMoveType::EnPassantCapture {
        OxidePiece::Pawn.with_side(pos.mover().other())
    } else if m.move_type.captures() {
        pos.sided_at(m.target())
    } else {
        OxideSidedPiece::Empty
    }
}

/// The piece on square `i` after the move.
pub open spec fn piece_after(pos: OxidePosition, m: OxideMove, i: int) -> OxideSidedPiece {
    let from = m.source();
    let to = m.target();
    let kind = m.move_type;
    if i == to {
        if kind.promotes() {
            kind.promoted().with_side(pos.mover())
        } else {
            pos.sided_at(from)
        }
    } else if i == from {
        OxideSidedPiece::Empty
    } else if kind == OxideMoveType::EnPassantCapture && i == en_passant_victim(from, to) {
        OxideSidedPiece::Empty
    } else if is_castle(kind) && i == castle_rook_from(from, kind) {
        OxideSidedPiece::Empty
    } else if is_castle(kind) && i == castle_rook_to(from, kind) {
        OxidePiece::Rook.with_side(pos.mover())
    } else {
        pos.sided_at(i)
    }
}

/// The castle rights that are lost when a piece leaves or reaches square
/// `i`: those of a king that leaves its first square, and the one of a rook
/// that leaves its corner or is captured there.
pub open spec fn rights_lost_on(i: int) -> OxideCastleRights {
    if i == 4 {
        OxideCastleRights::WhiteAll
    } else if i == 0 {
        OxideCastleRights::WhiteQueen
    } else if i == 7 {
        OxideCastleRights::WhiteKing
    } else if i == 60 {
        OxideCastleRights::BlackAll
    } else if i == 56 {
        OxideCastleRights::BlackQueen
    } else if i == 63 {
        OxideCastleRights::BlackKing
    } else {
        OxideCastleRights::NoRights
    }
}

/// The castle rights after the move.
pub open spec fn rights_after(pos: OxidePosition, m: OxideMove) -> OxideCastleRights {
    pos.rights().without(rights_lost_on(m.source()).union(rights_lost_on(m.target())))
}

/// Whether the move resets the half-move clock: it moves a pawn or
/// captures.
pub open spec fn resets_clock(pos: OxidePosition, m: OxideMove) -> bool {
    pos.sided_at(m.source()).kind() == OxidePiece::Pawn || m.move_type.captures()
}

/// Whether `after` is the position that the move makes of `pos`.
pub open spec fn is_after(pos: OxidePosition, m: OxideMove, after: OxidePosition) -> bool {
    &&& after.wf()
    &&& forall|i: int| #[trigger] after.sided_at(i) == piece_after(pos, m, i)
    &&& after.mover() == pos.mover().other()
    &&& after.rights() == rights_after(pos, m)
    &&& (if m.move_type == OxideMoveType::DoublePawnPush {
        after.en_passant().is_some() && after.en_passant().unwrap().index() == (m.source()
            + m.target()) / 2
    } else {
        after.en_passant().is_none()
    })
    &&& after.clock() == (if resets_clock(pos, m) {
        0
    } else {
        pos.clock() + 1
    })
    &&& after.plies() == pos.plies() + 1
}

/// The position that the move makes of `pos`.
pub open spec fn position_after(pos: OxidePosition, m: OxideMove) -> OxidePosition {
    choose|after: OxidePosition| is_after(pos, m, after)
}

/// A square has one number only.
pub proof fn lemma_square_by_index(a: OxideSquare, b: OxideSquare)
    requires
        a.index() == b.index(),
    ensures
        a == b,
{
}

/// There is one position only that a move makes of a position.
pub proof fn lemma_after_unique(pos: OxidePosition, m: OxideMove, a: OxidePosition, b: OxidePosition)
    requires
        is_after(pos, m, a),
        is_after(pos, m, b),
    ensures
        a == b,
{
    assert forall|i: int| #[trigger] a.sided_at(i) == b.sided_at(i) by {
        assert(a.sided_at(i) == piece_after(pos, m, i));
        assert(b.sided_at(i) == piece_after(pos, m, i));
    }
    if m.move_type == OxideMoveType::DoublePawnPush {
        lemma_square_by_index(a.en_passant().unwrap(), b.en_passant().unwrap());
    }
    lemma_position_ext(a, b);
}

/// Whether `after` holds the pieces as the move leaves them.
pub open spec fn is_moved(pos: OxidePosition, m: OxideMove, after: OxidePosition) -> bool {
    after.wf() && forall|i: int| #[trigger] after.sided_at(i) == piece_after(pos, m, i)
}

/// A position that holds the pieces as the move leaves them.
pub open spec fn moved(pos: OxidePosition, m: OxideMove) -> OxidePosition {
    choose|after: OxidePosition| is_moved(pos, m, after)
}

/// Whether the move leaves the mover's own king safe: no king of the mover
/// is attacked once the pieces stand as the move leaves them.
pub open spec fn leaves_king_safe(pos: OxidePosition, m: OxideMove) -> bool {
    !king_attacked(moved(pos, m), pos.mover())
}

/// Whether the king may castle: it is not attacked where it stands, nor on
/// the square that it passes. (That it is not attacked where it lands is
/// part of `leaves_king_safe`.)
pub open spec fn castle_way_safe(pos: OxidePosition, m: OxideMove) -> bool {
    is_castle(m.move_type) ==> !attacked_by(pos, pos.mover().other(), m.source()) && !attacked_by(
        pos,
        pos.mover().other(),
        castle_rook_to(m.source(), m.move_type),
    )
}

/// Whether the move, whose pieces can be placed, is legal as far as the
/// safety of the king goes.
pub open spec fn is_safe_move(pos: OxidePosition, m: OxideMove) -> bool {
    leaves_king_safe(pos, m) && castle_way_safe(pos, m)
}

/// Whether the move gives check: after it a king of the other side is
/// attacked.
pub open spec fn checks(pos: OxidePosition, m: OxideMove) -> bool {
    king_attacked(moved(pos, m), pos.mover().other())
}

/// Whether the piece on `from`, which belongs to `side`, is not the piece
/// that moved to `target` and attacks a king of the other side.
pub open spec fn uncovered_attacker(after: OxidePosition, side: OxideSide, target: int, from: int) -> bool {
    holds_side(after, side, from) && from != target && attacks_king(after, side.other(), from)
}

/// Whether the move uncovers a check: after it a king of the other side is
/// attacked by a piece that does not stand on the target square of the move.
pub open spec fn discovers_check(pos: OxidePosition, m: OxideMove) -> bool {
    exists|from: int| #[trigger] uncovered_attacker(moved(pos, m), pos.mover(), m.target(), from)
}

/// Which squares are attacked depends on the pieces alone: two well-formed
/// positions with the same pieces agree on every attack.
pub proof fn lemma_attacks_same_board(p: OxidePosition, q: OxidePosition)
    requires
        p.wf(),
        q.wf(),
        p.same_board(q),
    ensures
        p.occupancy() == q.occupancy(),
        forall|from: int, to: int| #[trigger] square_attacks(p, from, to) == square_attacks(q, from, to),
        forall|side: OxideSide, from: int| #[trigger]
            holds_side(p, side, from) == holds_side(q, side, from),
        forall|side: OxideSide, from: int| #[trigger]
            attacks_king(p, side, from) == attacks_king(q, side, from),
        forall|side: OxideSide, to: int| #[trigger] attacked_by(p, side, to) == attacked_by(q, side, to),
        forall|side: OxideSide| #[trigger] king_attacked(p, side) == king_attacked(q, side),
{
    crate::position::lemma_position_occupancy(p);
    crate::position::lemma_position_occupancy(q);
    assert forall|i: int| 0 <= i < 64 implies crate::bits::bit(p.occupancy(), i) == crate::bits::bit(
        q.occupancy(),
        i,
    ) by {
        assert(p.sided_at(i) == q.sided_at(i));
    }
    crate::bits::lemma_bit_ext(p.occupancy(), q.occupancy());
    assert forall|from: int, to: int| #[trigger]
        square_attacks(p, from, to) == square_attacks(q, from, to) by {
        assert(p.sided_at(from) == q.sided_at(from));
    }
    assert forall|side: OxideSide, from: int| #[trigger]
        holds_side(p, side, from) == holds_side(q, side, from) by {
        assert(p.sided_at(from) == q.sided_at(from));
    }
    assert forall|side: OxideSide, k: int| #[trigger] p.king_at(side, k) == q.king_at(side, k) by {
        assert(p.sided_at(k) == q.sided_at(k));
    }
    assert forall|side: OxideSide, from: int| #[trigger]
        attacks_king(p, side, from) == attacks_king(q, side, from) by {
        if attacks_king(p, side, from) {
            let k = choose|k: int| #[trigger] p.king_at(side, k) && square_attacks(p, from, k);
            assert(q.king_at(side, k) && square_attacks(q, from, k));
        }
        if attacks_king(q, side, from) {
            let k = choose|k: int| #[trigger] q.king_at(side, k) && square_attacks(q, from, k);
            assert(p.king_at(side, k) && square_attacks(p, from, k));
        }
    }
    assert forall|side: OxideSide, to: int| #[trigger]
        attacked_by(p, side, to) == attacked_by(q, side, to) by {
        if attacked_by(p, side, to) {
            let f = choose|f: int| #[trigger] holds_side(p, side, f) && square_attacks(p, f, to);
            assert(holds_side(q, side, f) && square_attacks(q, f, to));
        }
        if attacked_by(q, side, to) {
            let f = choose|f: int| #[trigger] holds_side(q, side, f) && square_attacks(q, f, to);
            assert(holds_side(p, side, f) && square_attacks(p, f, to));
        }
    }
    assert forall|side: OxideSide| #[trigger] king_attacked(p, side) == king_attacked(q, side) by {
        if king_attacked(p, side) {
            let f = choose|f: int| #[trigger]
                holds_side(p, side.other(), f) && attacks_king(p, side, f);
            assert(holds_side(q, side.other(), f) && attacks_king(q, side, f));
        }
        if king_attacked(q, side) {
            let f = choose|f: int| #[trigger]
                holds_side(q, side.other(), f) && attacks_king(q, side, f);
            assert(holds_side(p, side.other(), f) && attacks_king(p, side, f));
        }
    }
}

/// Any position that holds the pieces as the move leaves them agrees with
/// `moved` on every attack.
pub proof fn lemma_moved(pos: OxidePosition, m: OxideMove, after: OxidePosition)
    requires
        is_moved(pos, m, after),
    ensures
        is_moved(pos, m, moved(pos, m)),
        after.same_board(moved(pos, m)),
        forall|side: OxideSide| #[trigger] king_attacked(after, side) == king_attacked(moved(pos, m), side),
        forall|side: OxideSide, from: int| #[trigger]
            holds_side(after, side, from) == holds_side(moved(pos, m), side, from),
        forall|side: OxideSide, from: int| #[trigger]
            attacks_king(after, side, from) == attacks_king(moved(pos, m), side, from),
{
    let chosen = moved(pos, m);
    assert forall|i: int| #[trigger] after.sided_at(i) == chosen.sided_at(i) by {
        assert(after.sided_at(i) == piece_after(pos, m, i));
        assert(chosen.sided_at(i) == piece_after(pos, m, i));
    }
    lemma_attacks_same_board(after, chosen);
}

/// Whether the piece on `from` attacks one of the squares of `targets`.
pub open spec fn attacks_some(pos: OxidePosition, from: int, targets: u64) -> bool {
    exists|t: int| #[trigger] crate::bits::bit(targets, t) && square_attacks(pos, from, t)
}

/// Whether `piece`, standing on `from`, attacks a king of `side` when the
/// squares of `occupied` hold pieces.
pub open spec fn attacks_king_through(
    pos: OxidePosition,
    side: OxideSide,
    piece: OxideSidedPiece,
    from: int,
    occupied: u64,
) -> bool {
    exists|k: int| #[trigger] pos.king_at(side, k) && piece_attacks(piece, from, occupied, k)
}

/// Whether `kind` is a piece that slides: a bishop, a rook or a queen.
pub open spec fn is_slider(kind: OxidePiece) -> bool {
    kind == OxidePiece::Bishop || kind == OxidePiece::Rook || kind == OxidePiece::Queen
}

/// Whether the piece of `side` on square `b` alone shields a king of `side`
/// from the sliding piece of the other side on square `s`: the slider does
/// not attack a king of `side` as the board stands, and does attack one once
/// the piece on `b` is taken away.
pub open spec fn shields(pos: OxidePosition, side: OxideSide, s: int, b: int) -> bool {
    &&& holds_side(pos, side.other(), s)
    &&& is_slider(pos.sided_at(s).kind())
    &&& holds_side(pos, side, b)
    &&& !attacks_king_through(pos, side, pos.sided_at(s), s, pos.occupancy())
    &&& attacks_king_through(pos, side, pos.sided_at(s), s, pos.occupancy() & !single(b))
}

/// Whether the piece on `s` pins a piece of `side` to a king of `side`.
pub open spec fn pins(pos: OxidePosition, side: OxideSide, s: int) -> bool {
    exists|b: int| #[trigger] shields(pos, side, s, b)
}

/// Whether the piece of `side` on `b` is pinned to a king of `side`.
pub open spec fn blocks(pos: OxidePosition, side: OxideSide, b: int) -> bool {
    exists|s: int| #[trigger] shields(pos, side, s, b)
}

/// Whether the piece on `s` gives check to the side to move.
pub open spec fn is_checker(pos: OxidePosition, s: int) -> bool {
    holds_side(pos, pos.mover().other(), s) && attacks_king(pos, pos.mover(), s)
}

/// Whether a piece of kind `kind` of the side to move would attack a king
/// of the other side from square `s`, as the board stands.
pub open spec fn checks_from(pos: OxidePosition, kind: OxidePiece, s: int) -> bool {
    on_board(s) && attacks_king_through(
        pos,
        pos.mover().other(),
        kind.with_side(pos.mover()),
        s,
        pos.occupancy(),
    )
}

/// The piece on square `i` before the move that led to `pos`, where the
/// move captured a piece of kind `captured`.
pub open spec fn piece_before(pos: OxidePosition, m: OxideMove, captured: OxidePiece, i: int) -> OxideSidedPiece {
    let from = m.source();
    let to = m.target();
    let kind = m.move_type;
    let mover = pos.mover().other();
    if i == from {
        if kind.promotes() {
            OxidePiece::Pawn.with_side(mover)
        } else {
            pos.sided_at(to)
        }
    } else if kind == OxideMoveType::EnPassantCapture && i == en_passant_victim(from, to) {
        OxidePiece::Pawn.with_side(mover.other())
    } else if i == to {
        if kind.captures() && kind != OxideMoveType::EnPassantCapture {
            captured.with_side(mover.other())
        } else {
            OxideSidedPiece::Empty
        }
    } else if is_castle(kind) && i == castle_rook_from(from, kind) {
        OxidePiece::Rook.with_side(mover)
    } else if is_castle(kind) && i == castle_rook_to(from, kind) {
        OxideSidedPiece::Empty
    } else {
        pos.sided_at(i)
    }
}

/// Whether the move can be taken back on the position: the pieces that the
/// move left behind stand where it put them, and the squares that it emptied
/// are empty. `captured` is the kind of piece that the move captured and
/// `en_passant` the en-passant square that is to be restored.
pub open spec fn can_revert(
    pos: OxidePosition,
    m: OxideMove,
    captured: OxidePiece,
    en_passant: Option<OxideSquare>,
) -> bool {
    let from = m.source();
    let to = m.target();
    let kind = m.move_type;
    let mover = pos.mover().other();
    let moved = pos.sided_at(to);
    &&& from != to
    &&& pos.plies() > 0
    &&& moved != OxideSidedPiece::Empty
    &&& moved.owner() == mover
    &&& (kind.promotes() ==> moved == kind.promoted().with_side(mover))
    &&& pos.sided_at(from) == OxideSidedPiece::Empty
    &&& (en_passant.is_some() ==> is_en_passant_square(en_passant.unwrap().index()))
    &&& (if kind == OxideMoveType::EnPassantCapture {
        let victim = en_passant_victim(from, to);
        &&& victim != from
        &&& victim != to
        &&& pos.sided_at(victim) == OxideSidedPiece::Empty
    } else {
        kind.captures() ==> captured != OxidePiece::Empty && captured != OxidePiece::King
    })
    &&& (is_castle(kind) ==> {
        &&& moved.kind() == OxidePiece::King
        &&& on_board(castle_rook_from(from, kind))
        &&& on_board(castle_rook_to(from, kind))
        &&& castle_rook_to(from, kind) != to
        &&& castle_rook_from(from, kind) != to
        &&& pos.sided_at(castle_rook_to(from, kind)) == OxidePiece::Rook.with_side(mover)
        &&& pos.sided_at(castle_rook_from(from, kind)) == OxideSidedPiece::Empty
    })
}

/// Whether `before` is the position that taking the move back makes of
/// `pos`, with the castle rights, the en-passant square and the half-move
/// clock restored to the values given.
pub open spec fn is_before(
    pos: OxidePosition,
    m: OxideMove,
    captured: OxidePiece,
    rights: OxideCastleRights,
    en_passant: Option<OxideSquare>,
    clock: u8,
    before: OxidePosition,
) -> bool {
    &&& before.wf()
    &&& forall|i: int| #[trigger] before.sided_at(i) == piece_before(pos, m, captured, i)
    &&& before.mover() == pos.mover().other()
    &&& before.rights() == rights
    &&& before.en_passant() == en_passant
    &&& before.clock() == clock
    &&& before.plies() == pos.plies() - 1
}

/// A move that was made can be taken back, and taking it back gives the
/// pieces that stood before it.
pub proof fn lemma_revert_after_apply(before: OxidePosition, m: OxideMove, after: OxidePosition)
    requires
        before.wf(),
        can_apply(before, m),
        is_after(before, m, after),
    ensures
        can_revert(after, m, captured_by(before, m).kind(), before.en_passant()),
        forall|i: int| #[trigger]
            piece_before(after, m, captured_by(before, m).kind(), i) == before.sided_at(i),
{
    crate::position::lemma_hash_is_expected(before);
    let from = m.source();
    let to = m.target();
    assert(after.sided_at(to) == piece_after(before, m, to));
    assert(after.sided_at(from) == piece_after(before, m, from));
    assert(after.sided_at(en_passant_victim(from, to)) == piece_after(
        before,
        m,
        en_passant_victim(from, to),
    ));
    assert(after.sided_at(castle_rook_from(from, m.move_type)) == piece_after(
        before,
        m,
        castle_rook_from(from, m.move_type),
    ));
    assert(after.sided_at(castle_rook_to(from, m.move_type)) == piece_after(
        before,
        m,
        castle_rook_to(from, m.move_type),
    ));
    crate::piece::lemma_with_side_round_trip(before.sided_at(to));
    assert forall|i: int| #[trigger]
        piece_before(after, m, captured_by(before, m).kind(), i) == before.sided_at(i) by {
        assert(after.sided_at(i) == piece_after(before, m, i));
        crate::piece::lemma_with_side_round_trip(before.sided_at(i));
    }
}

/// The pieces of a move that can be placed can stand as the move leaves
/// them: there is such a position, and `moved` is one.
pub proof fn lemma_moved_exists(pos: OxidePosition, m: OxideMove)
    requires
        pos.wf(),
        can_place(pos, m),
    ensures
        is_moved(pos, m, moved(pos, m)),
{
    crate::position::lemma_hash_is_expected(pos);
    let after = crate::position::lemma_position_exists(
        |i: int| piece_after(pos, m, i),
        pos.mover(),
        pos.rights(),
        pos.en_passant(),
        pos.clock(),
        pos.plies(),
    );
    crate::square::lemma_square_of_index(m.simple_move.from);
    crate::square::lemma_square_of_index(m.simple_move.to);
    assert forall|i: int| #[trigger] after.sided_at(i) == piece_after(pos, m, i) by {
        if !on_board(i) {
            crate::position::lemma_position_off_board(after, i);
            crate::position::lemma_position_off_board(pos, i);
        }
    }
    assert(is_moved(pos, m, after));
}

/// Whether two positions hold the same piece on every square, but for
/// squares on which both hold a piece of `side` that is no king.
pub open spec fn same_but_own_pieces(p: OxidePosition, q: OxidePosition, side: OxideSide) -> bool {
    forall|i: int| #[trigger]
        p.sided_at(i) == q.sided_at(i) || (holds_side(p, side, i) && holds_side(q, side, i)
            && p.sided_at(i).kind() != OxidePiece::King && q.sided_at(i).kind() != OxidePiece::King)
}

/// Whether a king is attacked does not depend on which pieces its own side
/// has, kings apart, but only on where they stand.
pub proof fn lemma_king_safety_same(p: OxidePosition, q: OxidePosition, side: OxideSide)
    requires
        p.wf(),
        q.wf(),
        same_but_own_pieces(p, q, side),
    ensures
        king_attacked(p, side) == king_attacked(q, side),
{
    crate::position::lemma_position_occupancy(p);
    crate::position::lemma_position_occupancy(q);
    assert forall|i: int| 0 <= i < 64 implies crate::bits::bit(p.occupancy(), i) == crate::bits::bit(
        q.occupancy(),
        i,
    ) by {
        assert(p.sided_at(i) == q.sided_at(i) || (holds_side(p, side, i) && holds_side(q, side, i)));
    }
    crate::bits::lemma_bit_ext(p.occupancy(), q.occupancy());
    assert forall|k: int| #[trigger] p.king_at(side, k) == q.king_at(side, k) by {
        assert(p.sided_at(k) == q.sided_at(k) || (holds_side(p, side, k) && holds_side(q, side, k)
            && p.sided_at(k).kind() != OxidePiece::King && q.sided_at(k).kind() != OxidePiece::King));
    }
    assert forall|from: int| #[trigger]
        holds_side(p, side.other(), from) == holds_side(q, side.other(), from) && (holds_side(
            p,
            side.other(),
            from,
        ) ==> p.sided_at(from) == q.sided_at(from)) by {
        assert(p.sided_at(from) == q.sided_at(from) || (holds_side(p, side, from) && holds_side(
            q,
            side,
            from,
        )));
    }
    if king_attacked(p, side) {
        let f = choose|f: int| #[trigger] holds_side(p, side.other(), f) && attacks_king(p, side, f);
        let k = choose|k: int| #[trigger] p.king_at(side, k) && square_attacks(p, f, k);
        assert(q.king_at(side, k) && square_attacks(q, f, k));
        assert(holds_side(q, side.other(), f) && attacks_king(q, side, f));
    }
    if king_attacked(q, side) {
        let f = choose|f: int| #[trigger] holds_side(q, side.other(), f) && attacks_king(q, side, f);
        let k = choose|k: int| #[trigger] q.king_at(side, k) && square_attacks(q, f, k);
        assert(p.king_at(side, k) && square_attacks(p, f, k));
        assert(holds_side(p, side.other(), f) && attacks_king(p, side, f));
    }
}

/// Whether a promotion leaves the king safe does not depend on the piece
/// that the pawn becomes.
pub proof fn lemma_promotion_safety(pos: OxidePosition, m: OxideMove, other: OxideMove)
    requires
        pos.wf(),
        can_place(pos, m),
        m.move_type.promotes(),
        other.move_type.promotes(),
        other.simple_move == m.simple_move,
        other.move_type.captures() == m.move_type.captures(),
    ensures
        can_place(pos, other),
        is_safe_move(pos, other) == is_safe_move(pos, m),
{
    lemma_moved_exists(pos, m);
    lemma_moved_exists(pos, other);
    let a = moved(pos, m);
    let b = moved(pos, other);
    assert forall|i: int| #[trigger]
        a.sided_at(i) == b.sided_at(i) || (holds_side(a, pos.mover(), i) && holds_side(b, pos.mover(), i)
            && a.sided_at(i).kind() != OxidePiece::King && b.sided_at(i).kind() != OxidePiece::King) by {
        assert(a.sided_at(i) == piece_after(pos, m, i));
        assert(b.sided_at(i) == piece_after(pos, other, i));
        crate::square::lemma_square_of_index(m.simple_move.to);
    }
    lemma_king_safety_same(a, b, pos.mover());
}

/// Making a move and taking it back gives the position back, bit for bit:
/// the same pieces, side to move, castle rights, en-passant square and
/// clocks, and with them the same hash.
pub proof fn lemma_undo_after_make(
    before: OxidePosition,
    m: OxideMove,
    after: OxidePosition,
    restored: OxidePosition,
)
    requires
        before.wf(),
        can_apply(before, m),
        is_after(before, m, after),
        is_before(
            after,
            m,
            captured_by(before, m).kind(),
            before.rights(),
            before.en_passant(),
            before.clock(),
            restored,
        ),
    ensures
        restored == before,
        restored.hash() == before.hash(),
{
    lemma_revert_after_apply(before, m, after);
    assert forall|i: int| #[trigger] restored.sided_at(i) == before.sided_at(i) by {
        assert(restored.sided_at(i) == piece_before(after, m, captured_by(before, m).kind(), i));
    }
    lemma_position_ext(restored, before);
}

/// A move that can be made leads to one position, and `position_after` is
/// that position.
pub proof fn lemma_position_after_exists(pos: OxidePosition, m: OxideMove)
    requires
        pos.wf(),
        can_apply(pos, m),
    ensures
        is_after(pos, m, position_after(pos, m)),
        is_moved(pos, m, position_after(pos, m)),
{
    crate::position::lemma_hash_is_expected(pos);
    crate::square::lemma_square_of_index(m.simple_move.from);
    crate::square::lemma_square_of_index(m.simple_move.to);
    let middle = (m.source() + m.target()) / 2;
    let en_passant = if m.move_type == OxideMoveType::DoublePawnPush {
        crate::square::lemma_square_of(middle);
        Some(crate::square::square_of(middle))
    } else {
        None
    };
    let after = crate::position::lemma_position_exists(
        |i: int| piece_after(pos, m, i),
        pos.mover().other(),
        rights_after(pos, m),
        en_passant,
        if resets_clock(pos, m) {
            0u8
        } else {
            (pos.clock() + 1) as u8
        },
        (pos.plies() + 1) as u16,
    );
    assert forall|i: int| #[trigger] after.sided_at(i) == piece_after(pos, m, i) by {
        if !on_board(i) {
            crate::position::lemma_position_off_board(after, i);
            crate::position::lemma_position_off_board(pos, i);
        }
    }
    assert(is_after(pos, m, after));
}

} // verus!
