//! Boards: a position together with what is derived from it for move
//! generation, and with what is needed to take a move back.
use vstd::prelude::*;
use crate::attacks::{pawn_attacks, pseudo_attacks};
use crate::bitboard::{OxideBitboard, count_below, lemma_count_without};
use crate::bits::{
    bit, lemma_bit_and, lemma_bit_masks, lemma_bit_not, lemma_bit_or, lemma_bit_zero, on_board,
};
use crate::castle::OxideCastleRights;
use crate::chess_move::OxideMove;
use crate::piece::{OxidePiece, OxideSidedPiece};
use crate::position::OxidePosition;
use crate::rules::{
    attacked_by, attacks_king, attacks_king_through, attacks_some, blocks, can_apply, can_place,
    can_revert, captured_by, checks, checks_from, discovers_check, holds_side, is_after, is_before,
    is_checker, is_moved, is_safe_move, is_slider, king_attacked, lemma_after_unique, lemma_moved,
    lemma_revert_after_apply, moved, piece_after, piece_attacks, piece_before, pins, position_after,
    rights_lost_on, shields, square_attacks, uncovered_attacker,
};
use crate::side::OxideSide;
use crate::square::OxideSquare;
use crate::zobrist::OxideZobristHasher;

verus! {

/// The squares that `piece`, standing on `from`, attacks when the squares of
/// `occupied` hold pieces.
pub fn attack_set(piece: OxideSidedPiece, from: OxideSquare, occupied: OxideBitboard) -> (r: OxideBitboard)
    requires
        piece != OxideSidedPiece::Empty,
    ensures
        forall|to: int| #[trigger] r.has(to) == piece_attacks(piece, from.index(), occupied.0, to),
{
    match piece.unsided_piece() {
        OxidePiece::Pawn => pawn_attacks(from.to_mask(), piece.side()),
        kind => pseudo_attacks(kind, from, occupied),
    }
}

/// Whether two sets share a square.
pub fn sets_meet(a: OxideBitboard, b: OxideBitboard) -> (r: bool)
    ensures
        r == (exists|t: int| #[trigger] a.has(t) && b.has(t)),
{
    proof {
        lemma_bit_and(a.0, b.0);
        lemma_bit_zero(a.0 & b.0);
        if a.0 & b.0 != 0 {
            let t = choose|t: int| 0 <= t < 64 && bit(a.0 & b.0, t);
            assert(a.has(t) && b.has(t));
        } else {
            assert forall|t: int| !(#[trigger] a.has(t) && b.has(t)) by {
                if 0 <= t < 64 {
                    assert(!bit(a.0 & b.0, t));
                }
            }
        }
    }
    a.0 & b.0 != 0
}

/// The pieces of `side` that attack a square of `targets`.
pub fn attackers_of_set(pos: &OxidePosition, targets: OxideBitboard, side: OxideSide) -> (r: OxideBitboard)
    requires
        pos.wf(),
    ensures
        forall|s: int| #[trigger] r.has(s) == (holds_side(*pos, side, s) && attacks_some(*pos, s, targets.0)),
{
    let occupied = pos.occupied();
    let mut rest = pos.mask_for_side(side);
    let mut found = 0u64;
    proof {
        lemma_bit_masks();
        assert forall|s: int| rest.has(s) implies holds_side(*pos, side, s) by {}
    }
    while rest.0 != 0
        invariant
            pos.wf(),
            occupied.0 == pos.occupancy(),
            forall|s: int| rest.has(s) ==> holds_side(*pos, side, s),
            forall|s: int| #[trigger]
                bit(found, s) == (holds_side(*pos, side, s) && !rest.has(s) && attacks_some(
                    *pos,
                    s,
                    targets.0,
                )),
        decreases count_below(rest.0, 64),
    {
        let ghost before = rest;
        let ghost found_before = found;
        match rest.next() {
            Some(square) => {
                proof {
                    lemma_count_without(before.0, rest.0, square.index(), 64);
                }
                let piece = pos.sided_piece_on_square(square);
                let attacks = attack_set(piece, square, occupied);
                let hit = sets_meet(attacks, targets);
                proof {
                    if hit {
                        let t = choose|t: int| #[trigger] attacks.has(t) && targets.has(t);
                        assert(bit(targets.0, t) && square_attacks(*pos, square.index(), t));
                    }
                    if attacks_some(*pos, square.index(), targets.0) {
                        let t = choose|t: int| #[trigger]
                            bit(targets.0, t) && square_attacks(*pos, square.index(), t);
                        assert(attacks.has(t) && targets.has(t));
                    }
                }
                if hit {
                    let mask = square.to_mask();
                    proof {
                        lemma_bit_or(found, mask.0);
                    }
                    found = found | mask.0;
                }
            },
            None => {},
        }
    }
    proof {
        lemma_bit_masks();
    }
    OxideBitboard(found)
}

/// The squares on which `side` has a king.
pub fn kings_of(pos: &OxidePosition, side: OxideSide) -> (r: OxideBitboard)
    requires
        pos.wf(),
    ensures
        forall|k: int| #[trigger] r.has(k) == pos.king_at(side, k),
{
    let r = pos.sided_piece_mask(OxidePiece::King.add_side(side));
    proof {
        assert forall|k: int| #[trigger] r.has(k) == pos.king_at(side, k) by {
            if !on_board(k) {
                crate::position::lemma_position_off_board(*pos, k);
            }
        }
    }
    r
}

/// The pieces of the other side that attack a king of `side`.
pub fn attackers_of_king(pos: &OxidePosition, side: OxideSide) -> (r: OxideBitboard)
    requires
        pos.wf(),
    ensures
        forall|s: int| #[trigger]
            r.has(s) == (holds_side(*pos, side.other(), s) && attacks_king(*pos, side, s)),
        r.0 != 0 <==> king_attacked(*pos, side),
{
    let kings = kings_of(pos, side);
    let r = attackers_of_set(pos, kings, side.opposite_side());
    proof {
        assert forall|s: int| attacks_some(*pos, s, kings.0) == attacks_king(*pos, side, s) by {
            if attacks_some(*pos, s, kings.0) {
                let t = choose|t: int| #[trigger] bit(kings.0, t) && square_attacks(*pos, s, t);
                assert(pos.king_at(side, t) && square_attacks(*pos, s, t));
            }
            if attacks_king(*pos, side, s) {
                let k = choose|k: int| #[trigger] pos.king_at(side, k) && square_attacks(*pos, s, k);
                assert(bit(kings.0, k) && square_attacks(*pos, s, k));
            }
        }
        lemma_bit_zero(r.0);
        if r.0 != 0 {
            let s = choose|s: int| 0 <= s < 64 && r.has(s);
            assert(holds_side(*pos, side.other(), s) && attacks_king(*pos, side, s));
        }
        if king_attacked(*pos, side) {
            let s = choose|s: int| #[trigger]
                holds_side(*pos, side.other(), s) && attacks_king(*pos, side, s);
            assert(r.has(s));
        }
    }
    r
}

/// Whether a piece of `side` attacks `square`.
pub fn is_attacked_by(pos: &OxidePosition, side: OxideSide, square: OxideSquare) -> (r: bool)
    requires
        pos.wf(),
    ensures
        r == attacked_by(*pos, side, square.index()),
{
    let target = square.to_mask();
    let attackers = attackers_of_set(pos, target, side);
    proof {
        lemma_bit_zero(attackers.0);
        if attackers.0 != 0 {
            let s = choose|s: int| 0 <= s < 64 && attackers.has(s);
            assert(holds_side(*pos, side, s) && attacks_some(*pos, s, target.0));
            let t = choose|t: int| #[trigger] bit(target.0, t) && square_attacks(*pos, s, t);
            assert(t == square.index());
            assert(holds_side(*pos, side, s) && square_attacks(*pos, s, square.index()));
        }
        if attacked_by(*pos, side, square.index()) {
            let s = choose|s: int| #[trigger]
                holds_side(*pos, side, s) && square_attacks(*pos, s, square.index());
            assert(bit(target.0, square.index()) && square_attacks(*pos, s, square.index()));
            assert(attackers.has(s));
        }
    }
    attackers.0 != 0
}

/// Whether `piece`, standing on `from`, attacks a square of `kings`, the
/// squares of the kings of `side`.
fn reaches_king(
    pos: &OxidePosition,
    side: OxideSide,
    kings: OxideBitboard,
    piece: OxideSidedPiece,
    from: OxideSquare,
    occupied: OxideBitboard,
) -> (r: bool)
    requires
        piece != OxideSidedPiece::Empty,
        forall|k: int| #[trigger] kings.has(k) == pos.king_at(side, k),
    ensures
        r == attacks_king_through(*pos, side, piece, from.index(), occupied.0),
{
    let attacks = attack_set(piece, from, occupied);
    let hit = sets_meet(attacks, kings);
    proof {
        if hit {
            let t = choose|t: int| #[trigger] attacks.has(t) && kings.has(t);
            assert(pos.king_at(side, t) && piece_attacks(piece, from.index(), occupied.0, t));
        }
        if attacks_king_through(*pos, side, piece, from.index(), occupied.0) {
            let k = choose|k: int| #[trigger]
                pos.king_at(side, k) && piece_attacks(piece, from.index(), occupied.0, k);
            assert(attacks.has(k) && kings.has(k));
        }
    }
    hit
}

/// The pieces of `side` that shield a king of `side` from the sliding piece
/// of the other side on `slider`.
fn shielding_pieces(pos: &OxidePosition, side: OxideSide, slider: OxideSquare) -> (r: OxideBitboard)
    requires
        pos.wf(),
        holds_side(*pos, side.other(), slider.index()),
        is_slider(pos.sided_at(slider.index()).kind()),
    ensures
        forall|b: int| #[trigger] r.has(b) == shields(*pos, side, slider.index(), b),
{
    let occupied = pos.occupied();
    let kings = kings_of(pos, side);
    let piece = pos.sided_piece_on_square(slider);
    proof {
        lemma_bit_masks();
    }
    if reaches_king(pos, side, kings, piece, slider, occupied) {
        return OxideBitboard(0);
    }
    let mut rest = pos.mask_for_side(side);
    let mut found = 0u64;
    while rest.0 != 0
        invariant
            pos.wf(),
            piece == pos.sided_at(slider.index()),
            piece != OxideSidedPiece::Empty,
            holds_side(*pos, side.other(), slider.index()),
            is_slider(pos.sided_at(slider.index()).kind()),
            occupied.0 == pos.occupancy(),
            !attacks_king_through(*pos, side, piece, slider.index(), pos.occupancy()),
            forall|k: int| #[trigger] kings.has(k) == pos.king_at(side, k),
            forall|b: int| rest.has(b) ==> holds_side(*pos, side, b),
            forall|b: int| #[trigger]
                bit(found, b) == (!rest.has(b) && shields(*pos, side, slider.index(), b)),
        decreases count_below(rest.0, 64),
    {
        let ghost before = rest;
        match rest.next() {
            Some(square) => {
                proof {
                    lemma_count_without(before.0, rest.0, square.index(), 64);
                }
                let mask = square.to_mask();
                let without = OxideBitboard(occupied.0 & !mask.0);
                if reaches_king(pos, side, kings, piece, slider, without) {
                    proof {
                        lemma_bit_or(found, mask.0);
                    }
                    found = found | mask.0;
                }
            },
            None => {},
        }
    }
    OxideBitboard(found)
}

/// Whether one of the sliders of `sliders` that is no longer in `rest` is
/// shielded from a king of `side` by the piece on `b`.
pub open spec fn shields_among(pos: OxidePosition, side: OxideSide, b: int, sliders: u64, rest: u64) -> bool {
    exists|s: int| #[trigger] shields(pos, side, s, b) && bit(sliders, s) && !bit(rest, s)
}

/// The pieces that pin a piece of `side`, and the pieces of `side` that are
/// pinned.
fn pin_masks(pos: &OxidePosition, side: OxideSide) -> (r: (OxideBitboard, OxideBitboard))
    requires
        pos.wf(),
    ensures
        forall|s: int| #[trigger] r.0.has(s) == pins(*pos, side, s),
        forall|b: int| #[trigger] r.1.has(b) == blocks(*pos, side, b),
{
    let bishops = pos.piece_mask(OxidePiece::Bishop);
    let rooks = pos.piece_mask(OxidePiece::Rook);
    let queens = pos.piece_mask(OxidePiece::Queen);
    let enemy = pos.mask_for_side(side.opposite_side());
    let sliders = OxideBitboard((bishops.0 | rooks.0 | queens.0) & enemy.0);
    proof {
        lemma_bit_masks();
        lemma_bit_or(bishops.0, rooks.0);
        lemma_bit_or(bishops.0 | rooks.0, queens.0);
        lemma_bit_and(bishops.0 | rooks.0 | queens.0, enemy.0);
        assert forall|s: int| #[trigger]
            sliders.has(s) == (holds_side(*pos, side.other(), s) && is_slider(pos.sided_at(s).kind())) by {
            if !on_board(s) {
                crate::position::lemma_position_off_board(*pos, s);
            }
        }
    }
    let mut rest = sliders;
    let mut pinning = 0u64;
    let mut blocking = 0u64;
    while rest.0 != 0
        invariant
            pos.wf(),
            forall|s: int| #[trigger]
                sliders.has(s) == (holds_side(*pos, side.other(), s) && is_slider(pos.sided_at(s).kind())),
            forall|s: int| rest.has(s) ==> sliders.has(s),
            forall|s: int| #[trigger] bit(pinning, s) == (sliders.has(s) && !rest.has(s) && pins(*pos, side, s)),
            forall|b: int| #[trigger] bit(blocking, b) == shields_among(*pos, side, b, sliders.0, rest.0),
        decreases count_below(rest.0, 64),
    {
        let ghost before = rest;
        let ghost blocking_before = blocking;
        match rest.next() {
            Some(square) => {
                proof {
                    lemma_count_without(before.0, rest.0, square.index(), 64);
                }
                let shielding = shielding_pieces(pos, side, square);
                proof {
                    lemma_bit_zero(shielding.0);
                    lemma_bit_or(blocking, shielding.0);
                    if shielding.0 != 0 {
                        let b = choose|b: int| 0 <= b < 64 && shielding.has(b);
                        assert(shields(*pos, side, square.index(), b));
                    }
                    if pins(*pos, side, square.index()) {
                        let b = choose|b: int| #[trigger] shields(*pos, side, square.index(), b);
                        assert(shielding.has(b));
                    }
                }
                if shielding.0 != 0 {
                    let mask = square.to_mask();
                    proof {
                        lemma_bit_or(pinning, mask.0);
                    }
                    pinning = pinning | mask.0;
                }
                blocking = blocking | shielding.0;
                proof {
                    assert forall|b: int| #[trigger]
                        bit(blocking, b) == shields_among(*pos, side, b, sliders.0, rest.0) by {
                        if shields_among(*pos, side, b, sliders.0, rest.0) {
                            let s = choose|s: int| #[trigger]
                                shields(*pos, side, s, b) && bit(sliders.0, s) && !bit(rest.0, s);
                            if s != square.index() {
                                assert(shields(*pos, side, s, b) && bit(sliders.0, s) && !bit(before.0, s));
                            }
                        }
                        if bit(blocking_before, b) {
                            let s = choose|s: int| #[trigger]
                                shields(*pos, side, s, b) && bit(sliders.0, s) && !bit(before.0, s);
                            assert(shields(*pos, side, s, b) && bit(sliders.0, s) && !bit(rest.0, s));
                        }
                        if shielding.has(b) {
                            assert(shields(*pos, side, square.index(), b) && bit(sliders.0, square.index())
                                && !bit(rest.0, square.index()));
                        }
                    }
                }
            },
            None => {},
        }
    }
    proof {
        assert forall|b: int| #[trigger] bit(blocking, b) == blocks(*pos, side, b) by {
            if blocks(*pos, side, b) {
                let s = choose|s: int| #[trigger] shields(*pos, side, s, b);
                assert(shields(*pos, side, s, b) && bit(sliders.0, s) && !bit(rest.0, s));
            }
            if shields_among(*pos, side, b, sliders.0, rest.0) {
                let s = choose|s: int| #[trigger]
                    shields(*pos, side, s, b) && bit(sliders.0, s) && !bit(rest.0, s);
                assert(shields(*pos, side, s, b));
            }
        }
        assert forall|s: int| #[trigger] bit(pinning, s) == pins(*pos, side, s) by {
            if pins(*pos, side, s) {
                let b = choose|b: int| #[trigger] shields(*pos, side, s, b);
                assert(sliders.has(s));
            }
        }
    }
    (OxideBitboard(pinning), OxideBitboard(blocking))
}

/// The squares from which a piece of kind `kind` of the side to move would
/// give check.
fn check_squares(pos: &OxidePosition, kind: OxidePiece) -> (r: OxideBitboard)
    requires
        pos.wf(),
        kind != OxidePiece::Empty,
    ensures
        forall|s: int| #[trigger] r.has(s) == checks_from(*pos, kind, s),
{
    let mover = pos.side_to_move();
    let piece = kind.add_side(mover);
    let kings = kings_of(pos, mover.opposite_side());
    let occupied = pos.occupied();
    let mut found = 0u64;
    let mut i: u8 = 0;
    proof {
        lemma_bit_masks();
    }
    while i < 64
        invariant
            i <= 64,
            pos.wf(),
            mover == pos.mover(),
            piece == kind.with_side(mover),
            piece != OxideSidedPiece::Empty,
            occupied.0 == pos.occupancy(),
            forall|k: int| #[trigger] kings.has(k) == pos.king_at(mover.other(), k),
            forall|s: int| #[trigger] bit(found, s) == (s < i && checks_from(*pos, kind, s)),
        decreases 64 - i,
    {
        let square = OxideSquare::at(i);
        if reaches_king(pos, mover.opposite_side(), kings, piece, square, occupied) {
            let mask = square.to_mask();
            proof {
                lemma_bit_or(found, mask.0);
            }
            found = found | mask.0;
        }
        i = i + 1;
    }
    OxideBitboard(found)
}

/// What a board keeps beside its position: the part that is derived from
/// the position (who pins, who is pinned, who gives check, from where each
/// kind of piece would give check) and the part that is needed to take the
/// last move back (the castle rights, the en-passant square, the half-move
/// clock and the hash as they stood, and the piece that the move captured).
#[derive(Clone, Copy, Debug, PartialEq, Eq)]
pub struct OxideBoardState {
    white_pinning: OxideBitboard,
    white_blocking: OxideBitboard,
    black_pinning: OxideBitboard,
    black_blocking: OxideBitboard,
    checkers: OxideBitboard,
    check_piece_masks: [OxideBitboard; 6],
    zobrist_hasher: OxideZobristHasher,
    castle_rights: OxideCastleRights,
    en_passant_square: Option<OxideSquare>,
    captured_piece: OxidePiece,
    halfmove_clock: u8,
}

/// The place of a kind of piece in the order pawn, knight, bishop, rook,
/// queen, king.
pub open spec fn kind_number(kind: OxidePiece) -> int {
    match kind {
        OxidePiece::Pawn => 0,
        OxidePiece::Knight => 1,
        OxidePiece::Bishop => 2,
        OxidePiece::Rook => 3,
        OxidePiece::Queen => 4,
        _ => 5,
    }
}

impl OxideBoardState {
    /// The pieces that pin a piece of `side`.
    pub closed spec fn pinning(self, side: OxideSide) -> OxideBitboard {
        match side {
            OxideSide::White => self.white_pinning,
            OxideSide::Black => self.black_pinning,
        }
    }

    /// The pieces of `side` that are pinned.
    pub closed spec fn blocking(self, side: OxideSide) -> OxideBitboard {
        match side {
            OxideSide::White => self.white_blocking,
            OxideSide::Black => self.black_blocking,
        }
    }

    /// The pieces that give check.
    pub closed spec fn checking(self) -> OxideBitboard {
        self.checkers
    }

    /// The squares from which a piece of kind `kind` would give check.
    pub closed spec fn check_mask(self, kind: OxidePiece) -> OxideBitboard {
        self.check_piece_masks[kind_number(kind)]
    }

    /// The castle rights as they stood.
    pub closed spec fn saved_rights(self) -> OxideCastleRights {
        self.castle_rights
    }

    /// The en-passant square as it stood.
    pub closed spec fn saved_en_passant(self) -> Option<OxideSquare> {
        self.en_passant_square
    }

    /// The half-move clock as it stood.
    pub closed spec fn saved_clock(self) -> u8 {
        self.halfmove_clock
    }

    /// The hash as it stood.
    pub closed spec fn saved_hash(self) -> u64 {
        self.zobrist_hasher.0
    }

    /// The kind of the piece that the last move captured, `Empty` for none.
    pub closed spec fn captured(self) -> OxidePiece {
        self.captured_piece
    }

    /// Whether the state is the one that belongs to `pos`: each derived set
    /// holds exactly the squares that its definition names, and the saved
    /// values are those of `pos`.
    pub open spec fn describes(self, pos: OxidePosition) -> bool {
        &&& forall|s: int| #[trigger] self.checking().has(s) == is_checker(pos, s)
        &&& forall|side: OxideSide, s: int| #[trigger] self.pinning(side).has(s) == pins(pos, side, s)
        &&& forall|side: OxideSide, b: int| #[trigger] self.blocking(side).has(b) == blocks(pos, side, b)
        &&& forall|kind: OxidePiece, s: int|
            kind != OxidePiece::Empty ==> #[trigger] self.check_mask(kind).has(s) == checks_from(
                pos,
                kind,
                s,
            )
        &&& self.saved_rights() == pos.rights()
        &&& self.saved_en_passant() == pos.en_passant()
        &&& self.saved_clock() == pos.clock()
        &&& self.saved_hash() == pos.hash()
    }

    /// The state of `position`, with no piece captured.
    pub fn new(position: &OxidePosition) -> (r: OxideBoardState)
        requires
            position.wf(),
        ensures
            r.describes(*position),
            r.captured() == OxidePiece::Empty,
    {
        Self::with_captured(position, OxidePiece::Empty)
    }

    /// The state of `position` after a move that captured a piece of kind
    /// `captured`.
    pub fn with_captured(position: &OxidePosition, captured: OxidePiece) -> (r: OxideBoardState)
        requires
            position.wf(),
        ensures
            r.describes(*position),
            r.captured() == captured,
    {
        let white = pin_masks(position, OxideSide::White);
        let black = pin_masks(position, OxideSide::Black);
        let checkers = attackers_of_king(position, position.side_to_move());
        let masks = [
            check_squares(position, OxidePiece::Pawn),
            check_squares(position, OxidePiece::Knight),
            check_squares(position, OxidePiece::Bishop),
            check_squares(position, OxidePiece::Rook),
            check_squares(position, OxidePiece::Queen),
            check_squares(position, OxidePiece::King),
        ];
        let clock = position.halfmove_clock();
        OxideBoardState {
            white_pinning: white.0,
            white_blocking: white.1,
            black_pinning: black.0,
            black_blocking: black.1,
            checkers,
            check_piece_masks: masks,
            zobrist_hasher: OxideZobristHasher(position.zobrist_hash()),
            castle_rights: position.castle_rights(),
            en_passant_square: position.en_passant_square(),
            captured_piece: captured,
            halfmove_clock: clock as u8,
        }
    }

    /// The castle rights as they stood.
    pub fn castle_rights(&self) -> (r: OxideCastleRights)
        ensures
            r == self.saved_rights(),
    {
        self.castle_rights
    }

    /// The en-passant square as it stood.
    pub fn en_passant_square(&self) -> (r: Option<OxideSquare>)
        ensures
            r == self.saved_en_passant(),
    {
        self.en_passant_square
    }

    /// The kind of the piece that the last move captured, `Empty` for none.
    pub fn captured_piece(&self) -> (r: OxidePiece)
        ensures
            r == self.captured(),
    {
        self.captured_piece
    }

    /// The half-move clock as it stood.
    pub fn halfmove_clock(&self) -> (r: u16)
        ensures
            r == self.saved_clock(),
    {
        self.halfmove_clock as u16
    }

    /// The hash as it stood.
    pub fn hasher(&self) -> (r: OxideZobristHasher)
        ensures
            r.0 == self.saved_hash(),
    {
        self.zobrist_hasher
    }

    /// The pieces that pin a piece of `side`.
    pub fn pinning_mask(&self, side: OxideSide) -> (r: OxideBitboard)
        ensures
            r == self.pinning(side),
    {
        match side {
            OxideSide::White => self.white_pinning,
            OxideSide::Black => self.black_pinning,
        }
    }

    /// The pieces of `side` that are pinned.
    pub fn blocking_mask(&self, side: OxideSide) -> (r: OxideBitboard)
        ensures
            r == self.blocking(side),
    {
        match side {
            OxideSide::White => self.white_blocking,
            OxideSide::Black => self.black_blocking,
        }
    }

    /// The pieces that give check to the side to move.
    pub fn checkers_mask(&self) -> (r: OxideBitboard)
        ensures
            r == self.checking(),
    {
        self.checkers
    }

    /// The squares from which a piece of kind `piece` of the side to move
    /// would give check. There is no such set for `Empty`.
    pub fn piece_check_mask(&self, piece: OxidePiece) -> (r: OxideBitboard)
        requires
            piece != OxidePiece::Empty,
        ensures
            r == self.check_mask(piece),
    {
        match piece {
            OxidePiece::Pawn => self.check_piece_masks[0],
            OxidePiece::Knight => self.check_piece_masks[1],
            OxidePiece::Bishop => self.check_piece_masks[2],
            OxidePiece::Rook => self.check_piece_masks[3],
            OxidePiece::Queen => self.check_piece_masks[4],
            _ => self.check_piece_masks[5],
        }
    }
}

/// A position has one state only for each captured piece.
pub proof fn lemma_state_unique(a: OxideBoardState, b: OxideBoardState, pos: OxidePosition)
    requires
        a.describes(pos),
        b.describes(pos),
        a.captured() == b.captured(),
    ensures
        a == b,
{
    assert(a.checkers == b.checkers) by {
        assert forall|i: int| 0 <= i < 64 implies bit(a.checkers.0, i) == bit(b.checkers.0, i) by {
            assert(a.checking().has(i) == is_checker(pos, i));
            assert(b.checking().has(i) == is_checker(pos, i));
        }
        crate::bits::lemma_bit_ext(a.checkers.0, b.checkers.0);
    }
    assert(a.white_pinning == b.white_pinning) by {
        assert forall|i: int| 0 <= i < 64 implies bit(a.white_pinning.0, i) == bit(b.white_pinning.0, i) by {
            assert(a.pinning(OxideSide::White).has(i) == pins(pos, OxideSide::White, i));
            assert(b.pinning(OxideSide::White).has(i) == pins(pos, OxideSide::White, i));
        }
        crate::bits::lemma_bit_ext(a.white_pinning.0, b.white_pinning.0);
    }
    assert(a.black_pinning == b.black_pinning) by {
        assert forall|i: int| 0 <= i < 64 implies bit(a.black_pinning.0, i) == bit(b.black_pinning.0, i) by {
            assert(a.pinning(OxideSide::Black).has(i) == pins(pos, OxideSide::Black, i));
            assert(b.pinning(OxideSide::Black).has(i) == pins(pos, OxideSide::Black, i));
        }
        crate::bits::lemma_bit_ext(a.black_pinning.0, b.black_pinning.0);
    }
    assert(a.white_blocking == b.white_blocking) by {
        assert forall|i: int| 0 <= i < 64 implies bit(a.white_blocking.0, i) == bit(b.white_blocking.0, i) by {
            assert(a.blocking(OxideSide::White).has(i) == blocks(pos, OxideSide::White, i));
            assert(b.blocking(OxideSide::White).has(i) == blocks(pos, OxideSide::White, i));
        }
        crate::bits::lemma_bit_ext(a.white_blocking.0, b.white_blocking.0);
    }
    assert(a.black_blocking == b.black_blocking) by {
        assert forall|i: int| 0 <= i < 64 implies bit(a.black_blocking.0, i) == bit(b.black_blocking.0, i) by {
            assert(a.blocking(OxideSide::Black).has(i) == blocks(pos, OxideSide::Black, i));
            assert(b.blocking(OxideSide::Black).has(i) == blocks(pos, OxideSide::Black, i));
        }
        crate::bits::lemma_bit_ext(a.black_blocking.0, b.black_blocking.0);
    }
    assert(a.check_piece_masks =~= b.check_piece_masks) by {
        assert forall|k: int| 0 <= k < 6 implies a.check_piece_masks[k] == b.check_piece_masks[k] by {
            let kind = if k == 0 {
                OxidePiece::Pawn
            } else if k == 1 {
                OxidePiece::Knight
            } else if k == 2 {
                OxidePiece::Bishop
            } else if k == 3 {
                OxidePiece::Rook
            } else if k == 4 {
                OxidePiece::Queen
            } else {
                OxidePiece::King
            };
            assert(kind_number(kind) == k);
            assert forall|i: int| 0 <= i < 64 implies bit(a.check_piece_masks[k].0, i) == bit(
                b.check_piece_masks[k].0,
                i,
            ) by {
                assert(a.check_mask(kind).has(i) == checks_from(pos, kind, i));
                assert(b.check_mask(kind).has(i) == checks_from(pos, kind, i));
            }
            crate::bits::lemma_bit_ext(a.check_piece_masks[k].0, b.check_piece_masks[k].0);
        }
    }
}

/// The castle rights that are lost when a piece leaves or reaches `square`.
pub fn rights_lost(square: OxideSquare) -> (r: OxideCastleRights)
    ensures
        r == rights_lost_on(square.index()),
{
    match square {
        OxideSquare::E1 => OxideCastleRights::WhiteAll,
        OxideSquare::A1 => OxideCastleRights::WhiteQueen,
        OxideSquare::H1 => OxideCastleRights::WhiteKing,
        OxideSquare::E8 => OxideCastleRights::BlackAll,
        OxideSquare::A8 => OxideCastleRights::BlackQueen,
        OxideSquare::H8 => OxideCastleRights::BlackKing,
        _ => OxideCastleRights::NoRights,
    }
}

/// Places the pieces as the move leaves them and returns the piece that
/// the move captured, `Empty` for none. Side to move, castle rights,
/// en-passant square and clocks stay as they are.
pub fn move_pieces(position: &mut OxidePosition, chess_move: OxideMove) -> (captured: OxideSidedPiece)
    requires
        old(position).wf(),
        can_place(*old(position), chess_move),
    ensures
        is_moved(*old(position), chess_move, *final(position)),
        final(position).same_state(*old(position)),
        captured == captured_by(*old(position), chess_move),
{
    let ghost start = *position;
    let from = chess_move.from();
    let to = chess_move.to();
    let mover = position.side_to_move();
    let moving = position.sided_piece_on_square(from);
    let mut captured = OxideSidedPiece::Empty;
    if chess_move.is_en_passant_capture() {
        let victim = OxideSquare::at(from.y_offset() * 8 + to.x_offset());
        captured = OxidePiece::Pawn.add_side(mover.opposite_side());
        position.remove_piece(captured, victim);
    } else if chess_move.is_capture() {
        captured = position.sided_piece_on_square(to);
        position.remove_piece(captured, to);
    }
    position.move_piece(moving, from, to);
    let promotion = chess_move.promotion();
    if promotion != OxidePiece::Empty {
        position.remove_piece(moving, to);
        position.add_piece(promotion.add_side(mover), to);
    }
    if chess_move.is_king_castle() {
        let rook_from = OxideSquare::at(from.offset() + 3);
        let rook_to = OxideSquare::at(from.offset() + 1);
        position.move_piece(OxidePiece::Rook.add_side(mover), rook_from, rook_to);
    } else if chess_move.is_queen_castle() {
        let rook_from = OxideSquare::at(from.offset() - 4);
        let rook_to = OxideSquare::at(from.offset() - 1);
        position.move_piece(OxidePiece::Rook.add_side(mover), rook_from, rook_to);
    }
    assert forall|i: int| #[trigger] position.sided_at(i) == piece_after(start, chess_move, i) by {}
    captured
}

/// Carries the move out on the position and returns the piece that it
/// captured, `Empty` for none.
pub fn apply_move(position: &mut OxidePosition, chess_move: OxideMove) -> (captured: OxideSidedPiece)
    requires
        old(position).wf(),
        can_apply(*old(position), chess_move),
    ensures
        is_after(*old(position), chess_move, *final(position)),
        *final(position) == position_after(*old(position), chess_move),
        captured == captured_by(*old(position), chess_move),
{
    let ghost start = *position;
    let from = chess_move.from();
    let to = chess_move.to();
    let pawn_moves = position.piece_on_square(from) == OxidePiece::Pawn;
    let captured = move_pieces(position, chess_move);
    let ghost placed = *position;
    let lost = rights_lost(from).united(rights_lost(to));
    position.remove_castle_rights(lost);
    if chess_move.is_double_pawn_push() {
        let middle = OxideSquare::at((from.offset() + to.offset()) / 2);
        position.set_en_passant(middle);
    } else {
        position.clear_en_passant();
    }
    if pawn_moves || chess_move.is_capture() {
        position.reset_halfmove_clock();
    } else {
        position.increment_halfmove_clock();
    }
    let plies = position.halfmove_count();
    position.set_halfmove_count(plies + 1);
    position.switch_sides();
    proof {
        assert forall|i: int| #[trigger] position.sided_at(i) == piece_after(start, chess_move, i) by {
            assert(placed.sided_at(i) == piece_after(start, chess_move, i));
        }
        assert(is_after(start, chess_move, *position));
        let chosen = position_after(start, chess_move);
        lemma_after_unique(start, chess_move, chosen, *position);
    }
    captured
}

/// Takes the move back on the position. `captured` is the kind of piece
/// that the move captured; the castle rights, the en-passant square and the
/// half-move clock are set to the values given.
pub fn revert_move(
    position: &mut OxidePosition,
    chess_move: OxideMove,
    captured: OxidePiece,
    rights: OxideCastleRights,
    en_passant: Option<OxideSquare>,
    clock: u8,
)
    requires
        old(position).wf(),
        can_revert(*old(position), chess_move, captured, en_passant),
    ensures
        is_before(*old(position), chess_move, captured, rights, en_passant, clock, *final(position)),
{
    let ghost start = *position;
    let from = chess_move.from();
    let to = chess_move.to();
    position.switch_sides();
    let mover = position.side_to_move();
    let plies = position.halfmove_count();
    position.set_halfmove_count(plies - 1);
    position.set_halfmove_clock(clock);
    match en_passant {
        Some(square) => {
            position.set_en_passant(square);
        },
        None => {
            position.clear_en_passant();
        },
    }
    position.set_castle_rights(rights);
    if chess_move.is_king_castle() {
        let rook_from = OxideSquare::at(from.offset() + 3);
        let rook_to = OxideSquare::at(from.offset() + 1);
        position.move_piece(OxidePiece::Rook.add_side(mover), rook_to, rook_from);
    } else if chess_move.is_queen_castle() {
        let rook_from = OxideSquare::at(from.offset() - 4);
        let rook_to = OxideSquare::at(from.offset() - 1);
        position.move_piece(OxidePiece::Rook.add_side(mover), rook_to, rook_from);
    }
    let mut moved = position.sided_piece_on_square(to);
    if chess_move.is_promotion() {
        position.remove_piece(moved, to);
        moved = OxidePiece::Pawn.add_side(mover);
        position.add_piece(moved, to);
    }
    position.move_piece(moved, to, from);
    if chess_move.is_en_passant_capture() {
        let victim = OxideSquare::at(from.y_offset() * 8 + to.x_offset());
        position.add_piece(OxidePiece::Pawn.add_side(mover.opposite_side()), victim);
    } else if chess_move.is_capture() {
        position.add_piece(captured.add_side(mover.opposite_side()), to);
    }
    proof {
        assert forall|i: int| #[trigger]
            position.sided_at(i) == piece_before(start, chess_move, captured, i) by {}
    }
}

/// A position with the state that belongs to it.
#[derive(Clone, Copy, Debug, PartialEq, Eq)]
pub struct OxideBoard {
    position: OxidePosition,
    state: OxideBoardState,
}

impl OxideBoard {
    /// The position of the board.
    pub closed spec fn pos(self) -> OxidePosition {
        self.position
    }

    /// The state of the board.
    pub closed spec fn status(self) -> OxideBoardState {
        self.state
    }

    /// Whether the board is well formed: its position is, and its state is
    /// the one that belongs to the position.
    pub open spec fn wf(self) -> bool {
        self.pos().wf() && self.status().describes(self.pos())
    }

    /// Whether the move can be taken back with `previous_state`.
    pub open spec fn can_undo(self, m: OxideMove, previous_state: OxideBoardState) -> bool {
        can_revert(self.pos(), m, self.status().captured(), previous_state.saved_en_passant())
    }

    /// The board of `position`.
    pub fn new(position: OxidePosition) -> (r: OxideBoard)
        requires
            position.wf(),
        ensures
            r.wf(),
            r.pos() == position,
            r.status().captured() == OxidePiece::Empty,
    {
        OxideBoard { state: OxideBoardState::new(&position), position }
    }

    /// The state of the board.
    pub fn state(&self) -> (r: &OxideBoardState)
        ensures
            *r == self.status(),
    {
        &self.state
    }

    /// The position of the board.
    pub fn position(&self) -> (r: &OxidePosition)
        ensures
            *r == self.pos(),
    {
        &self.position
    }

    /// Whether the side to move is in check.
    pub fn in_check(&self) -> (r: bool)
        requires
            self.wf(),
        ensures
            r == king_attacked(self.pos(), self.pos().mover()),
    {
        let checkers = self.state.checkers_mask();
        proof {
            let pos = self.pos();
            lemma_bit_zero(checkers.0);
            if checkers.0 != 0 {
                let s = choose|s: int| 0 <= s < 64 && checkers.has(s);
                assert(is_checker(pos, s));
                assert(holds_side(pos, pos.mover().other(), s) && attacks_king(pos, pos.mover(), s));
            }
            if king_attacked(pos, pos.mover()) {
                let s = choose|s: int| #[trigger]
                    holds_side(pos, pos.mover().other(), s) && attacks_king(pos, pos.mover(), s);
                assert(is_checker(pos, s));
                assert(checkers.has(s));
            }
        }
        checkers.0 != 0
    }

    /// Makes a move that is known to be applicable and returns the state as
    /// it stood, which is what `undo_move_unchecked` needs to take the move
    /// back.
    pub fn make_move_unchecked(&mut self, chess_move: OxideMove) -> (r: OxideBoardState)
        requires
            old(self).wf(),
            can_apply(old(self).pos(), chess_move),
        ensures
            final(self).wf(),
            is_after(old(self).pos(), chess_move, final(self).pos()),
            final(self).pos() == position_after(old(self).pos(), chess_move),
            final(self).status().captured() == captured_by(old(self).pos(), chess_move).kind(),
            r == old(self).status(),
            final(self).can_undo(chess_move, r),
    {
        let previous = self.state;
        let ghost start = self.position;
        let captured = apply_move(&mut self.position, chess_move);
        self.state = OxideBoardState::with_captured(&self.position, captured.unsided_piece());
        proof {
            lemma_revert_after_apply(start, chess_move, self.position);
        }
        previous
    }

    /// Takes back the move that led to this board. `previous_state` is the
    /// state that making the move returned.
    ///
    /// Where the board is what making the move made of an earlier board,
    /// and `previous_state` is the state of that earlier board, the earlier
    /// board is restored in full: pieces, side to move, castle rights,
    /// en-passant square, clocks, hash and state.
    pub fn undo_move_unchecked(&mut self, chess_move: OxideMove, previous_state: OxideBoardState)
        requires
            old(self).wf(),
            old(self).can_undo(chess_move, previous_state),
        ensures
            final(self).wf(),
            is_before(
                old(self).pos(),
                chess_move,
                old(self).status().captured(),
                previous_state.saved_rights(),
                previous_state.saved_en_passant(),
                previous_state.saved_clock(),
                final(self).pos(),
            ),
            final(self).status().captured() == previous_state.captured(),
            forall|before: OxideBoard| #[trigger]
                before.wf() && can_apply(before.pos(), chess_move) && previous_state == before.status()
                    && is_after(before.pos(), chess_move, old(self).pos())
                    && old(self).status().captured() == captured_by(before.pos(), chess_move).kind()
                    ==> *final(self) == before && final(self).pos().hash() == before.pos().hash(),
    {
        let ghost start = *self;
        let captured = self.state.captured_piece;
        revert_move(
            &mut self.position,
            chess_move,
            captured,
            previous_state.castle_rights,
            previous_state.en_passant_square,
            previous_state.halfmove_clock,
        );
        self.state = OxideBoardState::with_captured(&self.position, previous_state.captured_piece);
        proof {
            assert forall|before: OxideBoard| #[trigger]
                before.wf() && can_apply(before.pos(), chess_move) && previous_state == before.status()
                    && is_after(before.pos(), chess_move, start.pos()) && start.status().captured()
                    == captured_by(before.pos(), chess_move).kind() implies *self == before
                && self.pos().hash() == before.pos().hash() by {
                lemma_revert_after_apply(before.pos(), chess_move, start.pos());
                assert forall|i: int| #[trigger] self.pos().sided_at(i) == before.pos().sided_at(i) by {
                    assert(self.pos().sided_at(i) == piece_before(
                        start.pos(),
                        chess_move,
                        start.status().captured(),
                        i,
                    ));
                }
                crate::position::lemma_position_ext(self.pos(), before.pos());
                lemma_state_unique(self.state, before.state, before.pos());
            }
        }
    }

    /// Whether the move gives check.
    pub fn gives_check(&self, chess_move: &OxideMove) -> (r: bool)
        requires
            self.wf(),
            can_place(self.pos(), *chess_move),
        ensures
            r == checks(self.pos(), *chess_move),
    {
        let mut after = self.position;
        let _ = move_pieces(&mut after, *chess_move);
        proof {
            lemma_moved(self.pos(), *chess_move, after);
        }
        let attackers = attackers_of_king(&after, self.position.side_to_move().opposite_side());
        attackers.0 != 0
    }

    /// Whether the move uncovers a check by a piece other than the one that
    /// moves.
    pub fn is_discovery(&self, chess_move: &OxideMove) -> (r: bool)
        requires
            self.wf(),
            can_place(self.pos(), *chess_move),
        ensures
            r == discovers_check(self.pos(), *chess_move),
    {
        let mut after = self.position;
        let _ = move_pieces(&mut after, *chess_move);
        let mover = self.position.side_to_move();
        let attackers = attackers_of_king(&after, mover.opposite_side());
        let target = chess_move.to().to_mask();
        let others = OxideBitboard(attackers.0 & !target.0);
        proof {
            let pos = self.pos();
            let chosen = moved(pos, *chess_move);
            lemma_moved(pos, *chess_move, after);
            lemma_bit_not(target.0);
            lemma_bit_and(attackers.0, !target.0);
            lemma_bit_zero(others.0);
            if others.0 != 0 {
                let s = choose|s: int| 0 <= s < 64 && others.has(s);
                assert(holds_side(after, mover, s) == holds_side(chosen, mover, s));
                assert(attacks_king(after, mover.other(), s) == attacks_king(chosen, mover.other(), s));
                assert(uncovered_attacker(chosen, mover, chess_move.target(), s));
            }
            if discovers_check(pos, *chess_move) {
                let s = choose|s: int| #[trigger]
                    uncovered_attacker(chosen, mover, chess_move.target(), s);
                assert(holds_side(after, mover, s) == holds_side(chosen, mover, s));
                assert(attacks_king(after, mover.other(), s) == attacks_king(chosen, mover.other(), s));
                assert(others.has(s));
            }
        }
        others.0 != 0
    }

    /// Whether the pieces of the move can be placed on the board.
    pub fn can_place_move(&self, chess_move: &OxideMove) -> (r: bool)
        requires
            self.wf(),
        ensures
            r == can_place(self.pos(), *chess_move),
    {
        let position = &self.position;
        let from = chess_move.from();
        let to = chess_move.to();
        let mover = position.side_to_move();
        let moving = position.sided_piece_on_square(from);
        let target = position.sided_piece_on_square(to);
        proof {
            if from != to && from.index() == to.index() {
                crate::rules::lemma_square_by_index(from, to);
            }
        }
        if from == to || moving == OxideSidedPiece::Empty {
            return false;
        }
        if moving.side() != mover {
            return false;
        }
        let pawn = moving.unsided_piece() == OxidePiece::Pawn;
        if chess_move.is_promotion() && !pawn {
            return false;
        }
        if chess_move.is_double_pawn_push() {
            let sum = from.offset() + to.offset();
            let rank = (sum / 2) / 8;
            if !pawn || sum % 2 != 0 || (rank != 2 && rank != 5) {
                return false;
            }
        }
        if chess_move.is_en_passant_capture() {
            let victim = OxideSquare::at(from.y_offset() * 8 + to.x_offset());
            proof {
                if victim != from && victim.index() == from.index() {
                    crate::rules::lemma_square_by_index(victim, from);
                }
                if victim != to && victim.index() == to.index() {
                    crate::rules::lemma_square_by_index(victim, to);
                }
            }
            if target != OxideSidedPiece::Empty || !pawn || victim == from || victim == to
                || position.sided_piece_on_square(victim) != OxidePiece::Pawn.add_side(mover.opposite_side()) {
                return false;
            }
        } else if chess_move.is_capture() {
            if target == OxideSidedPiece::Empty {
                return false;
            }
            if target.side() == mover || target.unsided_piece() == OxidePiece::King {
                return false;
            }
        } else if target != OxideSidedPiece::Empty {
            return false;
        }
        if chess_move.is_king_castle() || chess_move.is_queen_castle() {
            let king_side = chess_move.is_king_castle();
            let home = from.offset();
            let fits = if king_side {
                home + 3 < 64
            } else {
                home >= 4
            };
            if !fits || moving.unsided_piece() != OxidePiece::King {
                return false;
            }
            let rook_from = if king_side {
                OxideSquare::at(home + 3)
            } else {
                OxideSquare::at(home - 4)
            };
            let rook_to = if king_side {
                OxideSquare::at(home + 1)
            } else {
                OxideSquare::at(home - 1)
            };
            proof {
                if rook_to != to && rook_to.index() == to.index() {
                    crate::rules::lemma_square_by_index(rook_to, to);
                }
                if rook_from != to && rook_from.index() == to.index() {
                    crate::rules::lemma_square_by_index(rook_from, to);
                }
            }
            if rook_to == to || rook_from == to || position.sided_piece_on_square(rook_from)
                != OxidePiece::Rook.add_side(mover) || position.sided_piece_on_square(rook_to)
                != OxideSidedPiece::Empty {
                return false;
            }
        }
        true
    }

    /// Whether the move, whose pieces can be placed, leaves the mover's own
    /// king safe. For a castle the king must also not be attacked where it
    /// stands nor on the square that it passes.
    pub fn is_safe(&self, chess_move: &OxideMove) -> (r: bool)
        requires
            self.wf(),
            can_place(self.pos(), *chess_move),
        ensures
            r == is_safe_move(self.pos(), *chess_move),
    {
        let mover = self.position.side_to_move();
        let enemy = mover.opposite_side();
        let mut after = self.position;
        let _ = move_pieces(&mut after, *chess_move);
        proof {
            lemma_moved(self.pos(), *chess_move, after);
        }
        if chess_move.is_king_castle() || chess_move.is_queen_castle() {
            let from = chess_move.from();
            let passed = if chess_move.is_king_castle() {
                OxideSquare::at(from.offset() + 1)
            } else {
                OxideSquare::at(from.offset() - 1)
            };
            if is_attacked_by(&self.position, enemy, from) || is_attacked_by(&self.position, enemy, passed) {
                return false;
            }
        }
        let attackers = attackers_of_king(&after, mover);
        attackers.0 == 0
    }
}

} // verus!
