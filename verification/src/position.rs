//! Positions: the pieces on the board, the side to move, the castle rights,
//! the en-passant square and the move clocks, with a running hash of it all.
use vstd::prelude::*;
use crate::arrangement::{OxidePieceArrangement, lemma_arrangement_ext};
use crate::bitboard::OxideBitboard;
use crate::bits::{lemma_xor_algebra, on_board};
use crate::castle::OxideCastleRights;
use crate::piece::{OxidePiece, OxideSidedPiece};
use crate::side::OxideSide;
use crate::square::OxideSquare;
use crate::zobrist::{
    BASE_KEY, OxideZobristHasher, SIDE_KEY, castle_key, castle_key_of, en_passant_key,
    en_passant_key_of, is_en_passant_square, keys_below, lemma_castle_key_difference, lemma_key_mix,
    lemma_keys_change_one, lemma_keys_empty, lemma_keys_same, piece_key, piece_key_of,
};

verus! {

/// The key that stands for the side to move: the side key for Black,
/// nothing for White.
pub open spec fn side_key_of(side: OxideSide) -> u64 {
    match side {
        OxideSide::White => 0,
        OxideSide::Black => SIDE_KEY,
    }
}

/// The key that stands for the en-passant square: the key of its file, or
/// nothing where there is no such square.
pub open spec fn en_passant_part(square: Option<OxideSquare>) -> u64 {
    match square {
        Some(s) => en_passant_key_of(s.index()),
        None => 0,
    }
}

proof fn bv_mix(b: u64, p: u64, s: u64, c: u64, e: u64, k: u64)
    by (bit_vector)
    ensures
        b ^ (p ^ k) ^ s ^ c ^ e == (b ^ p ^ s ^ c ^ e) ^ k,
        b ^ p ^ (s ^ k) ^ c ^ e == (b ^ p ^ s ^ c ^ e) ^ k,
        b ^ p ^ s ^ (c ^ k) ^ e == (b ^ p ^ s ^ c ^ e) ^ k,
        b ^ p ^ s ^ c ^ (e ^ k) == (b ^ p ^ s ^ c ^ e) ^ k,
        b ^ 0 ^ 0 ^ 0 ^ 0 == b,
{
}

/// A position of a game.
///
/// Seen from outside a position is the piece on each square (`sided_at`),
/// the side to move (`mover`), the castle rights (`rights`), the en-passant
/// square (`en_passant`), the half-move clock (`clock`), the number of half
/// moves played (`plies`) and the hash (`hash`). In a well-formed position
/// the hash is the one that `expected_hash` computes from the other parts.
#[derive(Clone, Copy, Debug, PartialEq, Eq)]
pub struct OxidePosition {
    arrangement: OxidePieceArrangement,
    side: OxideSide,
    zobrist_hasher: OxideZobristHasher,
    castle_rights: OxideCastleRights,
    en_passant_square: Option<OxideSquare>,
    halfmove_clock: u8,
    halfmove_count: u16,
}

impl OxidePosition {
    /// The piece on square `i`, `Empty` for none.
    pub closed spec fn sided_at(self, i: int) -> OxideSidedPiece {
        self.arrangement.sided_at(i)
    }

    /// The side to move.
    pub closed spec fn mover(self) -> OxideSide {
        self.side
    }

    /// The castle rights.
    pub closed spec fn rights(self) -> OxideCastleRights {
        self.castle_rights
    }

    /// The square on which a pawn can be captured in passing, if any.
    pub closed spec fn en_passant(self) -> Option<OxideSquare> {
        self.en_passant_square
    }

    /// The number of half moves since the last capture or pawn move.
    pub closed spec fn clock(self) -> u8 {
        self.halfmove_clock
    }

    /// The number of half moves played in the game.
    pub closed spec fn plies(self) -> u16 {
        self.halfmove_count
    }

    /// The squares that hold a piece, as a word.
    pub closed spec fn occupancy(self) -> u64 {
        self.arrangement.occupancy()
    }

    /// The running hash.
    pub closed spec fn hash(self) -> u64 {
        self.zobrist_hasher.0
    }

    /// The hash that belongs to the rest of the position: the base key mixed
    /// with the keys of the pieces on their squares, of the side to move, of
    /// the castle rights and of the en-passant file.
    pub open spec fn expected_hash(self) -> u64 {
        BASE_KEY ^ keys_below(|i: int| self.sided_at(i), 64) ^ side_key_of(self.mover())
            ^ castle_key_of(self.rights()) ^ en_passant_part(self.en_passant())
    }

    /// Whether the position is well formed: its arrangement is, its hash is
    /// the expected one, and its en-passant square, if any, lies on the third
    /// or the sixth rank.
    pub closed spec fn wf(self) -> bool {
        &&& self.arrangement.wf()
        &&& self.zobrist_hasher.0 == self.expected_hash()
        &&& (self.en_passant_square.is_some() ==> is_en_passant_square(
            self.en_passant_square.unwrap().index(),
        ))
    }

    /// Whether two positions hold the same piece on every square.
    pub open spec fn same_board(self, other: OxidePosition) -> bool {
        forall|i: int| #[trigger] self.sided_at(i) == other.sided_at(i)
    }

    /// Whether two positions agree on everything but the pieces and the
    /// hash: side to move, castle rights, en-passant square and clocks.
    pub open spec fn same_state(self, other: OxidePosition) -> bool {
        &&& self.mover() == other.mover()
        &&& self.rights() == other.rights()
        &&& self.en_passant() == other.en_passant()
        &&& self.clock() == other.clock()
        &&& self.plies() == other.plies()
    }

    /// Whether square `i` holds the king of `side`.
    pub open spec fn king_at(self, side: OxideSide, i: int) -> bool {
        on_board(i) && self.sided_at(i) == OxidePiece::King.with_side(side)
    }

    /// Whether `side` has a king.
    pub open spec fn has_king(self, side: OxideSide) -> bool {
        exists|i: int| self.king_at(side, i)
    }

    /// The position without pieces: White to move, no castle rights, no
    /// en-passant square, both clocks at zero.
    pub fn new() -> (r: OxidePosition)
        ensures
            r.wf(),
            forall|i: int| #[trigger] r.sided_at(i) == OxideSidedPiece::Empty,
            r.mover() == OxideSide::White,
            r.rights() == OxideCastleRights::NoRights,
            r.en_passant().is_none(),
            r.clock() == 0,
            r.plies() == 0,
            r.hash() == BASE_KEY,
    {
        let r = OxidePosition {
            arrangement: OxidePieceArrangement::new(),
            side: OxideSide::White,
            zobrist_hasher: OxideZobristHasher(BASE_KEY),
            castle_rights: OxideCastleRights::NoRights,
            en_passant_square: None,
            halfmove_clock: 0,
            halfmove_count: 0,
        };
        proof {
            lemma_keys_empty(|i: int| r.sided_at(i), 64);
            crate::zobrist::lemma_no_right_no_key();
            bv_mix(BASE_KEY, 0, 0, 0, 0, 0);
        }
        r
    }

    /// The squares that hold a piece of kind `piece`, of either side.
    pub fn piece_mask(&self, piece: OxidePiece) -> (r: OxideBitboard)
        requires
            self.wf(),
            piece != OxidePiece::Empty,
        ensures
            forall|i: int| #[trigger] r.has(i) == (self.sided_at(i).kind() == piece),
    {
        self.arrangement.piece_mask(piece)
    }

    /// The squares that hold the piece `sided_piece`.
    pub fn sided_piece_mask(&self, sided_piece: OxideSidedPiece) -> (r: OxideBitboard)
        requires
            self.wf(),
            sided_piece != OxideSidedPiece::Empty,
        ensures
            forall|i: int| #[trigger] r.has(i) == (self.sided_at(i) == sided_piece),
    {
        self.arrangement.sided_piece_mask(sided_piece)
    }

    /// The squares that hold a piece.
    pub fn occupied(&self) -> (r: OxideBitboard)
        requires
            self.wf(),
        ensures
            r.0 == self.occupancy(),
            forall|i: int| #[trigger] r.has(i) == (on_board(i) && self.sided_at(i) != OxideSidedPiece::Empty),
    {
        self.arrangement.occupied()
    }

    /// The squares that hold no piece.
    pub fn empty(&self) -> (r: OxideBitboard)
        requires
            self.wf(),
        ensures
            forall|i: int| #[trigger] r.has(i) == (on_board(i) && self.sided_at(i) == OxideSidedPiece::Empty),
    {
        self.arrangement.empty()
    }

    /// The squares that hold a piece of `side`.
    pub fn mask_for_side(&self, side: OxideSide) -> (r: OxideBitboard)
        requires
            self.wf(),
        ensures
            forall|i: int| #[trigger]
                r.has(i) == (self.sided_at(i) != OxideSidedPiece::Empty && self.sided_at(i).owner() == side),
    {
        self.arrangement.mask_for_side(side)
    }

    /// The kind of piece on `square`, `Empty` for none.
    pub fn piece_on_square(&self, square: OxideSquare) -> (r: OxidePiece)
        requires
            self.wf(),
        ensures
            r == self.sided_at(square.index()).kind(),
    {
        self.arrangement.piece_on_square(square)
    }

    /// The side that owns the piece on `square`, nothing for an empty square.
    pub fn side_on_square(&self, square: OxideSquare) -> (r: Option<OxideSide>)
        requires
            self.wf(),
        ensures
            r.is_none() == (self.sided_at(square.index()) == OxideSidedPiece::Empty),
            r.is_some() ==> r.unwrap() == self.sided_at(square.index()).owner(),
    {
        self.arrangement.side_on_square(square)
    }

    /// The piece on `square`, `Empty` for none.
    pub fn sided_piece_on_square(&self, square: OxideSquare) -> (r: OxideSidedPiece)
        requires
            self.wf(),
        ensures
            r == self.sided_at(square.index()),
    {
        self.arrangement.sided_piece_on_square(square)
    }

    /// The square of the king of `side`, which must have one.
    pub fn king_square(&self, side: OxideSide) -> (r: OxideSquare)
        requires
            self.wf(),
            self.has_king(side),
        ensures
            self.king_at(side, r.index()),
            forall|i: int| self.king_at(side, i) ==> r.index() <= i,
    {
        proof {
            let k = choose|i: int| self.king_at(side, i);
            assert(self.arrangement.king_at(side, k));
        }
        let r = self.arrangement.king_square(side);
        proof {
            assert forall|i: int| self.king_at(side, i) implies r.index() <= i by {
                assert(self.arrangement.king_at(side, i));
            }
        }
        r
    }

    /// Whether `side` has a king.
    pub fn side_has_king(&self, side: OxideSide) -> (r: bool)
        requires
            self.wf(),
        ensures
            r == self.has_king(side),
    {
        let kings = self.arrangement.sided_piece_mask(OxidePiece::King.add_side(side));
        proof {
            crate::bits::lemma_bit_zero(kings.0);
            if kings.0 != 0 {
                let k = choose|i: int| 0 <= i < 64 && kings.has(i);
                assert(self.king_at(side, k));
            } else {
                assert forall|i: int| !self.king_at(side, i) by {
                    if on_board(i) {
                        assert(!kings.has(i));
                    }
                }
            }
        }
        kings.0 != 0
    }

    /// Puts `piece` on `to_square`, which must be empty.
    pub fn add_piece(&mut self, piece: OxideSidedPiece, to_square: OxideSquare)
        requires
            old(self).wf(),
            piece != OxideSidedPiece::Empty,
            old(self).sided_at(to_square.index()) == OxideSidedPiece::Empty,
        ensures
            final(self).wf(),
            final(self).same_state(*old(self)),
            forall|i: int| #[trigger]
                final(self).sided_at(i) == (if i == to_square.index() {
                    piece
                } else {
                    old(self).sided_at(i)
                }),
            final(self).hash() == old(self).hash() ^ piece_key_of(piece, to_square.index()),
    {
        let ghost before = *self;
        self.arrangement.add_piece(piece, to_square);
        self.zobrist_hasher.write_u64(piece_key(piece, to_square));
        proof {
            let s = to_square.index();
            let f = |i: int| before.sided_at(i);
            let g = |i: int| self.sided_at(i);
            lemma_keys_change_one(f, g, s, 64);
            crate::zobrist::lemma_no_piece_no_key(s);
            lemma_key_mix(keys_below(f, 64), 0, 0, 0);
            bv_mix(
                BASE_KEY,
                keys_below(f, 64),
                side_key_of(before.mover()),
                castle_key_of(before.rights()),
                en_passant_part(before.en_passant()),
                piece_key_of(piece, s),
            );
        }
    }

    /// Takes `piece` off `from_square`, on which it must stand. A king is
    /// never taken off the board.
    pub fn remove_piece(&mut self, piece: OxideSidedPiece, from_square: OxideSquare)
        requires
            old(self).wf(),
            piece != OxideSidedPiece::Empty,
            piece.kind() != OxidePiece::King,
            old(self).sided_at(from_square.index()) == piece,
        ensures
            final(self).wf(),
            final(self).same_state(*old(self)),
            forall|i: int| #[trigger]
                final(self).sided_at(i) == (if i == from_square.index() {
                    OxideSidedPiece::Empty
                } else {
                    old(self).sided_at(i)
                }),
            final(self).hash() == old(self).hash() ^ piece_key_of(piece, from_square.index()),
    {
        let ghost before = *self;
        self.arrangement.remove_piece(piece, from_square);
        self.zobrist_hasher.write_u64(piece_key(piece, from_square));
        proof {
            let s = from_square.index();
            let f = |i: int| before.sided_at(i);
            let g = |i: int| self.sided_at(i);
            lemma_keys_change_one(f, g, s, 64);
            crate::zobrist::lemma_no_piece_no_key(s);
            lemma_key_mix(keys_below(f, 64) ^ piece_key_of(piece, s), 0, 0, 0);
            bv_mix(
                BASE_KEY,
                keys_below(f, 64),
                side_key_of(before.mover()),
                castle_key_of(before.rights()),
                en_passant_part(before.en_passant()),
                piece_key_of(piece, s),
            );
        }
    }

    /// Moves `piece` from `from_square`, on which it must stand, to
    /// `to_square`, which must be empty.
    pub fn move_piece(&mut self, piece: OxideSidedPiece, from_square: OxideSquare, to_square: OxideSquare)
        requires
            old(self).wf(),
            piece != OxideSidedPiece::Empty,
            old(self).sided_at(from_square.index()) == piece,
            old(self).sided_at(to_square.index()) == OxideSidedPiece::Empty,
        ensures
            final(self).wf(),
            final(self).same_state(*old(self)),
            forall|i: int| #[trigger]
                final(self).sided_at(i) == (if i == to_square.index() {
                    piece
                } else if i == from_square.index() {
                    OxideSidedPiece::Empty
                } else {
                    old(self).sided_at(i)
                }),
            final(self).hash() == (old(self).hash() ^ piece_key_of(piece, from_square.index()))
                ^ piece_key_of(piece, to_square.index()),
    {
        let ghost before = *self;
        self.arrangement.move_piece(piece, from_square, to_square);
        self.zobrist_hasher.write_u64(piece_key(piece, from_square));
        self.zobrist_hasher.write_u64(piece_key(piece, to_square));
        proof {
            let s = from_square.index();
            let t = to_square.index();
            let f = |i: int| before.sided_at(i);
            let m = |i: int|
                if i == s {
                    OxideSidedPiece::Empty
                } else {
                    before.sided_at(i)
                };
            let g = |i: int| self.sided_at(i);
            lemma_keys_change_one(f, m, s, 64);
            lemma_keys_change_one(m, g, t, 64);
            crate::zobrist::lemma_no_piece_no_key(s);
            crate::zobrist::lemma_no_piece_no_key(t);
            let kf = keys_below(f, 64);
            let ks = piece_key_of(piece, s);
            let kt = piece_key_of(piece, t);
            lemma_key_mix(kf ^ ks, 0, 0, 0);
            lemma_key_mix(keys_below(m, 64), 0, 0, 0);
            assert(keys_below(g, 64) == (kf ^ ks) ^ kt);
            bv_mix(
                BASE_KEY,
                kf,
                side_key_of(before.mover()),
                castle_key_of(before.rights()),
                en_passant_part(before.en_passant()),
                ks,
            );
            bv_mix(
                BASE_KEY,
                kf ^ ks,
                side_key_of(before.mover()),
                castle_key_of(before.rights()),
                en_passant_part(before.en_passant()),
                kt,
            );
        }
    }

    /// The side to move.
    pub fn side_to_move(&self) -> (r: OxideSide)
        ensures
            r == self.mover(),
    {
        self.side
    }

    /// The castle rights.
    pub fn castle_rights(&self) -> (r: OxideCastleRights)
        ensures
            r == self.rights(),
    {
        self.castle_rights
    }

    /// The square on which a pawn can be captured in passing, if any.
    pub fn en_passant_square(&self) -> (r: Option<OxideSquare>)
        ensures
            r == self.en_passant(),
            self.wf() && r.is_some() ==> is_en_passant_square(r.unwrap().index()),
    {
        self.en_passant_square
    }

    /// The number of half moves since the last capture or pawn move.
    pub fn halfmove_clock(&self) -> (r: u16)
        ensures
            r == self.clock(),
    {
        self.halfmove_clock as u16
    }

    /// The number of half moves played in the game.
    pub fn halfmove_count(&self) -> (r: u16)
        ensures
            r == self.plies(),
    {
        self.halfmove_count
    }

    /// The number of the move that is about to be played: it starts at one
    /// and goes up after each move of Black.
    pub fn fullmove_count(&self) -> (r: u16)
        ensures
            r == self.plies() / 2 + 1,
    {
        self.halfmove_count / 2 + 1
    }

    /// The running hash.
    pub fn zobrist_hash(&self) -> (r: u64)
        ensures
            r == self.hash(),
            self.wf() ==> r == self.expected_hash(),
    {
        self.zobrist_hasher.finish()
    }

    /// Mixes the keys of the whole position into `state`: the key of each
    /// piece on its square, the side key if Black is to move, the key of the
    /// castle rights and the key of the en-passant file.
    pub fn hash_into(&self, state: &mut OxideZobristHasher)
        requires
            self.wf(),
        ensures
            final(state).0 == old(state).0 ^ keys_below(|i: int| self.sided_at(i), 64) ^ side_key_of(
                self.mover(),
            ) ^ castle_key_of(self.rights()) ^ en_passant_part(self.en_passant()),
            old(state).0 == BASE_KEY ==> final(state).0 == self.hash(),
    {
        let ghost start = state.0;
        self.arrangement.hash_into(state);
        proof {
            lemma_keys_same(|i: int| self.arrangement.sided_at(i), |i: int| self.sided_at(i), 64);
            lemma_xor_algebra(state.0, 0, 0);
        }
        if self.side.is_black() {
            state.write_u64(SIDE_KEY);
        }
        state.write_u64(castle_key(self.castle_rights));
        proof {
            lemma_xor_algebra(state.0, 0, 0);
        }
        match self.en_passant_square {
            Some(square) => {
                state.write_u64(en_passant_key(square));
            },
            None => {},
        }
    }

    /// The hash of the position computed from nothing, which is the running
    /// hash.
    pub fn recomputed_hash(&self) -> (r: u64)
        requires
            self.wf(),
        ensures
            r == self.expected_hash(),
            r == self.hash(),
    {
        let mut state = OxideZobristHasher(BASE_KEY);
        self.hash_into(&mut state);
        state.finish()
    }

    /// Replaces the castle rights by `castle_rights`.
    pub fn set_castle_rights(&mut self, castle_rights: OxideCastleRights)
        requires
            old(self).wf(),
        ensures
            final(self).wf(),
            final(self).same_board(*old(self)),
            final(self).rights() == castle_rights,
            final(self).mover() == old(self).mover(),
            final(self).en_passant() == old(self).en_passant(),
            final(self).clock() == old(self).clock(),
            final(self).plies() == old(self).plies(),
            final(self).hash() == old(self).hash() ^ castle_key_of(
                old(self).rights().difference(castle_rights),
            ),
    {
        let ghost before = *self;
        let changed = self.castle_rights.symmetric_difference(castle_rights);
        self.castle_rights = castle_rights;
        self.zobrist_hasher.write_u64(castle_key(changed));
        proof {
            lemma_castle_key_difference(before.rights(), changed);
            crate::castle::lemma_difference_twice(before.rights(), castle_rights);
            lemma_keys_same(|i: int| before.sided_at(i), |i: int| self.sided_at(i), 64);
            bv_mix(
                BASE_KEY,
                keys_below(|i: int| before.sided_at(i), 64),
                side_key_of(before.mover()),
                castle_key_of(before.rights()),
                en_passant_part(before.en_passant()),
                castle_key_of(changed),
            );
        }
    }

    /// Adds the rights of `castle_rights` to those of the position. The hash
    /// changes by the key of the rights that the position did not hold.
    pub fn add_castle_rights(&mut self, castle_rights: OxideCastleRights)
        requires
            old(self).wf(),
        ensures
            final(self).wf(),
            final(self).same_board(*old(self)),
            final(self).rights() == old(self).rights().union(castle_rights),
            final(self).mover() == old(self).mover(),
            final(self).en_passant() == old(self).en_passant(),
            final(self).clock() == old(self).clock(),
            final(self).plies() == old(self).plies(),
            final(self).hash() == old(self).hash() ^ castle_key_of(castle_rights.without(old(self).rights())),
    {
        let rights = self.castle_rights.united(castle_rights);
        proof {
            crate::castle::lemma_difference_of_union(self.rights(), castle_rights);
        }
        self.set_castle_rights(rights);
    }

    /// Takes the rights of `castle_rights` away from those of the position.
    /// The hash changes by the key of the rights that the position held.
    pub fn remove_castle_rights(&mut self, castle_rights: OxideCastleRights)
        requires
            old(self).wf(),
        ensures
            final(self).wf(),
            final(self).same_board(*old(self)),
            final(self).rights() == old(self).rights().without(castle_rights),
            final(self).mover() == old(self).mover(),
            final(self).en_passant() == old(self).en_passant(),
            final(self).clock() == old(self).clock(),
            final(self).plies() == old(self).plies(),
            final(self).hash() == old(self).hash() ^ castle_key_of(old(self).rights().common(castle_rights)),
    {
        let rights = self.castle_rights.shared(castle_rights.inverted());
        proof {
            crate::castle::lemma_difference_of_rest(self.rights(), castle_rights);
        }
        self.set_castle_rights(rights);
    }

    /// Makes `en_passant_square`, a square of the third or of the sixth
    /// rank, the en-passant square.
    pub fn set_en_passant(&mut self, en_passant_square: OxideSquare)
        requires
            old(self).wf(),
            is_en_passant_square(en_passant_square.index()),
        ensures
            final(self).wf(),
            final(self).same_board(*old(self)),
            final(self).en_passant() == Some(en_passant_square),
            final(self).mover() == old(self).mover(),
            final(self).rights() == old(self).rights(),
            final(self).clock() == old(self).clock(),
            final(self).plies() == old(self).plies(),
            final(self).hash() == (old(self).hash() ^ en_passant_part(old(self).en_passant()))
                ^ en_passant_key_of(en_passant_square.index()),
    {
        self.clear_en_passant();
        let ghost before = *self;
        self.en_passant_square = Some(en_passant_square);
        self.zobrist_hasher.write_u64(en_passant_key(en_passant_square));
        proof {
            assert forall|i: int| #[trigger] self.sided_at(i) == old(self).sided_at(i) by {
                assert(before.sided_at(i) == old(self).sided_at(i));
            }
            lemma_keys_same(|i: int| before.sided_at(i), |i: int| self.sided_at(i), 64);
            lemma_key_mix(en_passant_key_of(en_passant_square.index()), 0, 0, 0);
            lemma_xor_algebra(0, en_passant_key_of(en_passant_square.index()), 0);
            bv_mix(
                BASE_KEY,
                keys_below(|i: int| before.sided_at(i), 64),
                side_key_of(before.mover()),
                castle_key_of(before.rights()),
                0,
                en_passant_key_of(en_passant_square.index()),
            );
        }
    }

    /// Leaves the position without an en-passant square.
    pub fn clear_en_passant(&mut self)
        requires
            old(self).wf(),
        ensures
            final(self).wf(),
            final(self).same_board(*old(self)),
            final(self).en_passant().is_none(),
            final(self).mover() == old(self).mover(),
            final(self).rights() == old(self).rights(),
            final(self).clock() == old(self).clock(),
            final(self).plies() == old(self).plies(),
            final(self).hash() == old(self).hash() ^ en_passant_part(old(self).en_passant()),
    {
        let ghost before = *self;
        proof {
            lemma_xor_algebra(self.zobrist_hasher.0, 0, 0);
        }
        match self.en_passant_square {
            Some(en_passant_square) => {
                self.en_passant_square = None;
                self.zobrist_hasher.write_u64(en_passant_key(en_passant_square));
                proof {
                    let k = en_passant_key_of(en_passant_square.index());
                    lemma_keys_same(|i: int| before.sided_at(i), |i: int| self.sided_at(i), 64);
                    lemma_xor_algebra(k, k, 0);
                    bv_mix(
                        BASE_KEY,
                        keys_below(|i: int| before.sided_at(i), 64),
                        side_key_of(before.mover()),
                        castle_key_of(before.rights()),
                        k,
                        k,
                    );
                }
            },
            None => {
                proof {
                    lemma_keys_same(|i: int| before.sided_at(i), |i: int| self.sided_at(i), 64);
                }
            },
        }
    }

    /// Hands the move to the other side.
    pub fn switch_sides(&mut self)
        requires
            old(self).wf(),
        ensures
            final(self).wf(),
            final(self).same_board(*old(self)),
            final(self).mover() == old(self).mover().other(),
            final(self).rights() == old(self).rights(),
            final(self).en_passant() == old(self).en_passant(),
            final(self).clock() == old(self).clock(),
            final(self).plies() == old(self).plies(),
            final(self).hash() == old(self).hash() ^ SIDE_KEY,
    {
        let ghost before = *self;
        self.side = self.side.opposite_side();
        self.zobrist_hasher.write_u64(SIDE_KEY);
        proof {
            lemma_keys_same(|i: int| before.sided_at(i), |i: int| self.sided_at(i), 64);
            lemma_xor_algebra(SIDE_KEY, SIDE_KEY, 0);
            lemma_xor_algebra(0, SIDE_KEY, 0);
            bv_mix(
                BASE_KEY,
                keys_below(|i: int| before.sided_at(i), 64),
                side_key_of(before.mover()),
                castle_key_of(before.rights()),
                en_passant_part(before.en_passant()),
                SIDE_KEY,
            );
        }
    }

    /// Sets the half-move clock back to zero.
    pub fn reset_halfmove_clock(&mut self)
        requires
            old(self).wf(),
        ensures
            final(self).wf(),
            final(self).same_board(*old(self)),
            final(self).clock() == 0,
            final(self).mover() == old(self).mover(),
            final(self).rights() == old(self).rights(),
            final(self).en_passant() == old(self).en_passant(),
            final(self).plies() == old(self).plies(),
    {
        self.set_halfmove_clock(0);
    }

    /// Adds one to the half-move clock, which must not stand at its limit.
    pub fn increment_halfmove_clock(&mut self)
        requires
            old(self).wf(),
            old(self).clock() < 255,
        ensures
            final(self).wf(),
            final(self).same_board(*old(self)),
            final(self).clock() == old(self).clock() + 1,
            final(self).mover() == old(self).mover(),
            final(self).rights() == old(self).rights(),
            final(self).en_passant() == old(self).en_passant(),
            final(self).plies() == old(self).plies(),
    {
        let clock = self.halfmove_clock + 1;
        self.set_halfmove_clock(clock);
    }

    /// Sets the half-move clock to `clock`.
    pub fn set_halfmove_clock(&mut self, clock: u8)
        requires
            old(self).wf(),
        ensures
            final(self).wf(),
            final(self).same_board(*old(self)),
            final(self).clock() == clock,
            final(self).mover() == old(self).mover(),
            final(self).rights() == old(self).rights(),
            final(self).en_passant() == old(self).en_passant(),
            final(self).plies() == old(self).plies(),
    {
        let ghost before = *self;
        self.halfmove_clock = clock;
        proof {
            lemma_keys_same(|i: int| before.sided_at(i), |i: int| self.sided_at(i), 64);
        }
    }

    /// Sets the number of half moves played to `plies`.
    pub fn set_halfmove_count(&mut self, plies: u16)
        requires
            old(self).wf(),
        ensures
            final(self).wf(),
            final(self).same_board(*old(self)),
            final(self).plies() == plies,
            final(self).mover() == old(self).mover(),
            final(self).rights() == old(self).rights(),
            final(self).en_passant() == old(self).en_passant(),
            final(self).clock() == old(self).clock(),
    {
        let ghost before = *self;
        self.halfmove_count = plies;
        proof {
            lemma_keys_same(|i: int| before.sided_at(i), |i: int| self.sided_at(i), 64);
        }
    }
}

/// The occupancy holds exactly the squares with a piece.
pub proof fn lemma_position_occupancy(p: OxidePosition)
    requires
        p.wf(),
    ensures
        forall|i: int| #[trigger]
            crate::bits::bit(p.occupancy(), i) == (on_board(i) && p.sided_at(i) != OxideSidedPiece::Empty),
{
    crate::arrangement::lemma_occupancy(p.arrangement);
}

/// No square off the board holds a piece.
pub proof fn lemma_position_off_board(p: OxidePosition, i: int)
    requires
        !on_board(i),
    ensures
        p.sided_at(i) == OxideSidedPiece::Empty,
{
    crate::arrangement::lemma_off_board_empty(p.arrangement, i);
}

/// In a well-formed position the hash is a function of the pieces, the side
/// to move, the castle rights and the en-passant square.
pub proof fn lemma_hash_is_expected(p: OxidePosition)
    requires
        p.wf(),
    ensures
        p.hash() == p.expected_hash(),
        p.en_passant().is_some() ==> is_en_passant_square(p.en_passant().unwrap().index()),
{
}

/// Two well-formed positions with the same pieces, side to move, castle
/// rights, en-passant square and clocks are the same position, hash and all.
pub proof fn lemma_position_ext(a: OxidePosition, b: OxidePosition)
    requires
        a.wf(),
        b.wf(),
        a.same_board(b),
        a.same_state(b),
    ensures
        a == b,
{
    assert forall|i: int| 0 <= i < 64 implies a.arrangement.sided_at(i) == b.arrangement.sided_at(i) by {
        assert(a.sided_at(i) == b.sided_at(i));
    }
    lemma_arrangement_ext(a.arrangement, b.arrangement);
    lemma_keys_same(|i: int| a.sided_at(i), |i: int| b.sided_at(i), 64);
}

impl OxidePosition {
    /// The position that holds the piece `at(i)` on each square `i` and has
    /// the other parts as given.
    pub closed spec fn assembled(
        at: spec_fn(int) -> OxideSidedPiece,
        mover: OxideSide,
        rights: OxideCastleRights,
        en_passant: Option<OxideSquare>,
        clock: u8,
        plies: u16,
    ) -> OxidePosition {
        let arrangement = OxidePieceArrangement::holding(at);
        OxidePosition {
            arrangement,
            side: mover,
            zobrist_hasher: OxideZobristHasher(
                BASE_KEY ^ keys_below(|i: int| arrangement.sided_at(i), 64) ^ side_key_of(mover)
                    ^ castle_key_of(rights) ^ en_passant_part(en_passant),
            ),
            castle_rights: rights,
            en_passant_square: en_passant,
            halfmove_clock: clock,
            halfmove_count: plies,
        }
    }
}

/// For every way of putting pieces on the squares, every side to move, all
/// castle rights, every en-passant square of the third or sixth rank and all
/// clocks, there is a well-formed position that has them.
pub proof fn lemma_position_exists(
    at: spec_fn(int) -> OxideSidedPiece,
    mover: OxideSide,
    rights: OxideCastleRights,
    en_passant: Option<OxideSquare>,
    clock: u8,
    plies: u16,
) -> (p: OxidePosition)
    requires
        en_passant.is_some() ==> is_en_passant_square(en_passant.unwrap().index()),
    ensures
        p.wf(),
        forall|i: int| 0 <= i < 64 ==> #[trigger] p.sided_at(i) == at(i),
        p.mover() == mover,
        p.rights() == rights,
        p.en_passant() == en_passant,
        p.clock() == clock,
        p.plies() == plies,
{
    let p = OxidePosition::assembled(at, mover, rights, en_passant, clock, plies);
    crate::arrangement::lemma_holding(at);
    lemma_keys_same(|i: int| p.arrangement.sided_at(i), |i: int| p.sided_at(i), 64);
    p
}

} // verus!
