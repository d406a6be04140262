//! Where the pieces stand: one set of squares for each kind of piece and one
//! for each side.
use vstd::prelude::*;
use crate::bitboard::OxideBitboard;
use crate::bits::{
    bit, lemma_bit_and, lemma_bit_ext, lemma_bit_masks, lemma_bit_not, lemma_bit_or, lemma_bit_xor,
    lemma_bit_zero, lemma_lowest_bit, lemma_word_where, lemma_xor_algebra, on_board, word_where,
};
use crate::piece::{OxidePiece, OxideSidedPiece};
use crate::side::OxideSide;
use crate::square::OxideSquare;
use crate::zobrist::{OxideZobristHasher, keys_below, piece_key, piece_key_of};

verus! {

/// The arrangement of the pieces on the board.
///
/// Seen from outside an arrangement is a map from the squares to the pieces
/// on them, `sided_at`. It is well formed when no square holds two kinds of
/// piece or a piece of both sides, and when exactly the squares with a piece
/// belong to a side.
#[derive(Clone, Copy, Debug, PartialEq, Eq, Structural)]
pub struct OxidePieceArrangement {
    pawns: OxideBitboard,
    queens: OxideBitboard,
    bishops: OxideBitboard,
    kings: OxideBitboard,
    rooks: OxideBitboard,
    knights: OxideBitboard,
    white: OxideBitboard,
    black: OxideBitboard,
}

impl OxidePieceArrangement {
    /// The kind of piece on square `i`, `Empty` for none.
    pub closed spec fn piece_at(self, i: int) -> OxidePiece {
        if self.pawns.has(i) {
            OxidePiece::Pawn
        } else if self.knights.has(i) {
            OxidePiece::Knight
        } else if self.bishops.has(i) {
            OxidePiece::Bishop
        } else if self.rooks.has(i) {
            OxidePiece::Rook
        } else if self.kings.has(i) {
            OxidePiece::King
        } else if self.queens.has(i) {
            OxidePiece::Queen
        } else {
            OxidePiece::Empty
        }
    }

    /// The side that owns the piece on square `i`, if there is a piece.
    pub closed spec fn side_at(self, i: int) -> Option<OxideSide> {
        if self.white.has(i) {
            Some(OxideSide::White)
        } else if self.black.has(i) {
            Some(OxideSide::Black)
        } else {
            None
        }
    }

    /// The piece on square `i`, `Empty` for none.
    pub open spec fn sided_at(self, i: int) -> OxideSidedPiece {
        match self.side_at(i) {
            Some(side) => self.piece_at(i).with_side(side),
            None => OxideSidedPiece::Empty,
        }
    }

    spec fn kinds_on(self, i: int) -> int {
        (if self.pawns.has(i) {
            1int
        } else {
            0int
        }) + (if self.knights.has(i) {
            1int
        } else {
            0int
        }) + (if self.bishops.has(i) {
            1int
        } else {
            0int
        }) + (if self.rooks.has(i) {
            1int
        } else {
            0int
        }) + (if self.queens.has(i) {
            1int
        } else {
            0int
        }) + (if self.kings.has(i) {
            1int
        } else {
            0int
        })
    }

    spec fn square_ok(self, i: int) -> bool {
        self.kinds_on(i) <= 1 && ((self.kinds_on(i) == 1) == (self.white.has(i) || self.black.has(i)))
            && !(self.white.has(i) && self.black.has(i))
    }

    /// Whether the arrangement is well formed: the sets of the six kinds are
    /// pairwise disjoint, the sets of the two sides are disjoint, and the
    /// two sides together hold exactly the squares of the six kinds.
    pub closed spec fn wf(self) -> bool {
        forall|i: int| 0 <= i < 64 ==> #[trigger] self.square_ok(i)
    }

    /// The squares that hold a piece, as a word.
    pub closed spec fn occupancy(self) -> u64 {
        self.white.0 | self.black.0
    }

    /// Whether square `i` holds the one king of `side`.
    pub open spec fn king_at(self, side: OxideSide, i: int) -> bool {
        on_board(i) && self.sided_at(i) == OxidePiece::King.with_side(side)
    }

    /// Whether `side` has a king.
    pub open spec fn has_king(self, side: OxideSide) -> bool {
        exists|i: int| self.king_at(side, i)
    }

    /// The arrangement without pieces.
    pub fn new() -> (r: OxidePieceArrangement)
        ensures
            r.wf(),
            forall|i: int| #[trigger] r.sided_at(i) == OxideSidedPiece::Empty,
    {
        proof {
            lemma_bit_masks();
        }
        let r = OxidePieceArrangement {
            pawns: OxideBitboard(0),
            queens: OxideBitboard(0),
            bishops: OxideBitboard(0),
            kings: OxideBitboard(0),
            rooks: OxideBitboard(0),
            knights: OxideBitboard(0),
            white: OxideBitboard(0),
            black: OxideBitboard(0),
        };
        assert forall|i: int| 0 <= i < 64 implies #[trigger] r.square_ok(i) by {}
        r
    }

    /// The squares that hold a piece of kind `piece`, of either side.
    pub fn piece_mask(&self, piece: OxidePiece) -> (r: OxideBitboard)
        requires
            self.wf(),
            piece != OxidePiece::Empty,
        ensures
            forall|i: int| #[trigger] r.has(i) == (self.sided_at(i).kind() == piece),
    {
        let r = match piece {
            OxidePiece::Pawn => self.pawns,
            OxidePiece::Knight => self.knights,
            OxidePiece::Bishop => self.bishops,
            OxidePiece::Rook => self.rooks,
            OxidePiece::Queen => self.queens,
            _ => self.kings,
        };
        proof {
            assert forall|i: int| #[trigger] r.has(i) == (self.sided_at(i).kind() == piece) by {
                if 0 <= i < 64 {
                    assert(self.square_ok(i));
                }
            }
        }
        r
    }

    /// The squares that hold the piece `sided_piece`.
    pub fn sided_piece_mask(&self, sided_piece: OxideSidedPiece) -> (r: OxideBitboard)
        requires
            self.wf(),
            sided_piece != OxideSidedPiece::Empty,
        ensures
            forall|i: int| #[trigger] r.has(i) == (self.sided_at(i) == sided_piece),
    {
        let kind = self.piece_mask(sided_piece.unsided_piece());
        let side = self.mask_for_side(sided_piece.side());
        let r = OxideBitboard(kind.0 & side.0);
        proof {
            lemma_bit_and(kind.0, side.0);
            assert forall|i: int| #[trigger] r.has(i) == (self.sided_at(i) == sided_piece) by {
                if 0 <= i < 64 {
                    assert(self.square_ok(i));
                }
            }
        }
        r
    }

    /// The squares that hold a piece.
    pub fn occupied(&self) -> (r: OxideBitboard)
        requires
            self.wf(),
        ensures
            r.0 == self.occupancy(),
            forall|i: int| #[trigger] r.has(i) == (on_board(i) && self.sided_at(i) != OxideSidedPiece::Empty),
    {
        let r = OxideBitboard(self.white.0 | self.black.0);
        proof {
            lemma_bit_or(self.white.0, self.black.0);
            assert forall|i: int| #[trigger]
                r.has(i) == (on_board(i) && self.sided_at(i) != OxideSidedPiece::Empty) by {
                if 0 <= i < 64 {
                    assert(self.square_ok(i));
                }
            }
        }
        r
    }

    /// The squares that hold no piece.
    pub fn empty(&self) -> (r: OxideBitboard)
        requires
            self.wf(),
        ensures
            forall|i: int| #[trigger] r.has(i) == (on_board(i) && self.sided_at(i) == OxideSidedPiece::Empty),
    {
        let occupied = self.occupied();
        proof {
            lemma_bit_not(occupied.0);
        }
        OxideBitboard(!occupied.0)
    }

    /// The squares that hold a piece of `side`.
    pub fn mask_for_side(&self, side: OxideSide) -> (r: OxideBitboard)
        requires
            self.wf(),
        ensures
            forall|i: int| #[trigger]
                r.has(i) == (self.sided_at(i) != OxideSidedPiece::Empty && self.sided_at(i).owner() == side),
    {
        let r = match side {
            OxideSide::White => self.white,
            OxideSide::Black => self.black,
        };
        proof {
            assert forall|i: int| #[trigger]
                r.has(i) == (self.sided_at(i) != OxideSidedPiece::Empty && self.sided_at(i).owner() == side) by {
                if 0 <= i < 64 {
                    assert(self.square_ok(i));
                }
            }
        }
        r
    }

    /// The kind of piece on `square`, `Empty` for none.
    pub fn piece_on_square(&self, square: OxideSquare) -> (r: OxidePiece)
        requires
            self.wf(),
        ensures
            r == self.sided_at(square.index()).kind(),
    {
        proof {
            assert(self.square_ok(square.index()));
        }
        if self.pawns.contains(square) {
            OxidePiece::Pawn
        } else if self.knights.contains(square) {
            OxidePiece::Knight
        } else if self.bishops.contains(square) {
            OxidePiece::Bishop
        } else if self.rooks.contains(square) {
            OxidePiece::Rook
        } else if self.kings.contains(square) {
            OxidePiece::King
        } else if self.queens.contains(square) {
            OxidePiece::Queen
        } else {
            OxidePiece::Empty
        }
    }

    /// The side that owns the piece on `square`, nothing for an empty square.
    pub fn side_on_square(&self, square: OxideSquare) -> (r: Option<OxideSide>)
        requires
            self.wf(),
        ensures
            r.is_none() == (self.sided_at(square.index()) == OxideSidedPiece::Empty),
            r.is_some() ==> r.unwrap() == self.sided_at(square.index()).owner(),
    {
        proof {
            assert(self.square_ok(square.index()));
        }
        if self.white.contains(square) {
            Some(OxideSide::White)
        } else if self.black.contains(square) {
            Some(OxideSide::Black)
        } else {
            None
        }
    }

    /// The piece on `square`, `Empty` for none.
    pub fn sided_piece_on_square(&self, square: OxideSquare) -> (r: OxideSidedPiece)
        requires
            self.wf(),
        ensures
            r == self.sided_at(square.index()),
    {
        proof {
            assert(self.square_ok(square.index()));
        }
        match self.side_on_square(square) {
            Some(side) => self.piece_on_square(square).add_side(side),
            None => OxideSidedPiece::Empty,
        }
    }

    /// The square of the king of `side`, the lowest if there are several.
    /// The side must have a king.
    pub fn king_square(&self, side: OxideSide) -> (r: OxideSquare)
        requires
            self.wf(),
            self.has_king(side),
        ensures
            self.king_at(side, r.index()),
            forall|i: int| self.king_at(side, i) ==> r.index() <= i,
    {
        let kings = self.sided_piece_mask(OxidePiece::King.add_side(side));
        proof {
            let k = choose|i: int| self.king_at(side, i);
            assert(kings.has(k));
            lemma_bit_zero(kings.0);
            lemma_lowest_bit(kings.0);
            assert forall|i: int| self.king_at(side, i) implies crate::bitboard::lowest_square(kings.0)
                <= i by {
                assert(kings.has(i));
            }
        }
        match OxideSquare::from_mask(kings) {
            Some(square) => square,
            None => vstd::pervasive::unreached(),
        }
    }

    /// Mixes the key of each piece on its square into `state`.
    pub fn hash_into(&self, state: &mut OxideZobristHasher)
        requires
            self.wf(),
        ensures
            final(state).0 == old(state).0 ^ keys_below(|i: int| self.sided_at(i), 64),
    {
        let ghost start = state.0;
        let ghost at = |i: int| self.sided_at(i);
        let mut i: u8 = 0;
        proof {
            lemma_xor_algebra(start, 0, 0);
        }
        while i < 64
            invariant
                i <= 64,
                self.wf(),
                at == (|i: int| self.sided_at(i)),
                state.0 == start ^ keys_below(at, i as nat),
            decreases 64 - i,
        {
            let square = OxideSquare::at(i);
            let piece = self.sided_piece_on_square(square);
            proof {
                crate::zobrist::lemma_no_piece_no_key(i as int);
                lemma_xor_algebra(start, keys_below(at, i as nat), piece_key_of(piece, i as int));
                lemma_xor_algebra(state.0, 0, 0);
                assert(at(i as int) == piece);
            }
            if piece != OxideSidedPiece::Empty {
                state.write_u64(piece_key(piece, square));
            }
            i = i + 1;
        }
    }

    /// Puts `sided_piece` on `to_square`, which must be empty.
    pub fn add_piece(&mut self, sided_piece: OxideSidedPiece, to_square: OxideSquare)
        requires
            old(self).wf(),
            sided_piece != OxideSidedPiece::Empty,
            old(self).sided_at(to_square.index()) == OxideSidedPiece::Empty,
        ensures
            final(self).wf(),
            forall|i: int| #[trigger]
                final(self).sided_at(i) == (if i == to_square.index() {
                    sided_piece
                } else {
                    old(self).sided_at(i)
                }),
    {
        let piece = sided_piece.unsided_piece();
        let side = sided_piece.side();
        let mask = to_square.to_mask();
        let ghost before = *self;
        match piece {
            OxidePiece::Pawn => {
                proof {
                    lemma_bit_or(self.pawns.0, mask.0);
                }
                self.pawns = OxideBitboard(self.pawns.0 | mask.0);
            },
            OxidePiece::Knight => {
                proof {
                    lemma_bit_or(self.knights.0, mask.0);
                }
                self.knights = OxideBitboard(self.knights.0 | mask.0);
            },
            OxidePiece::Bishop => {
                proof {
                    lemma_bit_or(self.bishops.0, mask.0);
                }
                self.bishops = OxideBitboard(self.bishops.0 | mask.0);
            },
            OxidePiece::Rook => {
                proof {
                    lemma_bit_or(self.rooks.0, mask.0);
                }
                self.rooks = OxideBitboard(self.rooks.0 | mask.0);
            },
            OxidePiece::Queen => {
                proof {
                    lemma_bit_or(self.queens.0, mask.0);
                }
                self.queens = OxideBitboard(self.queens.0 | mask.0);
            },
            OxidePiece::King => {
                proof {
                    lemma_bit_or(self.kings.0, mask.0);
                }
                self.kings = OxideBitboard(self.kings.0 | mask.0);
            },
            OxidePiece::Empty => {},
        }
        match side {
            OxideSide::White => {
                proof {
                    lemma_bit_or(self.white.0, mask.0);
                }
                self.white = OxideBitboard(self.white.0 | mask.0);
            },
            OxideSide::Black => {
                proof {
                    lemma_bit_or(self.black.0, mask.0);
                }
                self.black = OxideBitboard(self.black.0 | mask.0);
            },
        }
        proof {
            assert forall|i: int| 0 <= i < 64 implies #[trigger] self.square_ok(i) by {
                assert(before.square_ok(i));
            }
            assert forall|i: int| #[trigger]
                self.sided_at(i) == (if i == to_square.index() {
                    sided_piece
                } else {
                    before.sided_at(i)
                }) by {
                if 0 <= i < 64 {
                    assert(before.square_ok(i));
                }
            }
        }
    }

    /// Takes `sided_piece` off `from_square`, on which it must stand. A king
    /// is never taken off the board.
    pub fn remove_piece(&mut self, sided_piece: OxideSidedPiece, from_square: OxideSquare)
        requires
            old(self).wf(),
            sided_piece != OxideSidedPiece::Empty,
            sided_piece.kind() != OxidePiece::King,
            old(self).sided_at(from_square.index()) == sided_piece,
        ensures
            final(self).wf(),
            forall|i: int| #[trigger]
                final(self).sided_at(i) == (if i == from_square.index() {
                    OxideSidedPiece::Empty
                } else {
                    old(self).sided_at(i)
                }),
    {
        let piece = sided_piece.unsided_piece();
        let side = sided_piece.side();
        let square_mask = from_square.to_mask();
        let mask = OxideBitboard(!square_mask.0);
        let ghost before = *self;
        proof {
            lemma_bit_not(square_mask.0);
        }
        match piece {
            OxidePiece::Pawn => {
                proof {
                    lemma_bit_and(self.pawns.0, mask.0);
                }
                self.pawns = OxideBitboard(self.pawns.0 & mask.0);
            },
            OxidePiece::Knight => {
                proof {
                    lemma_bit_and(self.knights.0, mask.0);
                }
                self.knights = OxideBitboard(self.knights.0 & mask.0);
            },
            OxidePiece::Bishop => {
                proof {
                    lemma_bit_and(self.bishops.0, mask.0);
                }
                self.bishops = OxideBitboard(self.bishops.0 & mask.0);
            },
            OxidePiece::Rook => {
                proof {
                    lemma_bit_and(self.rooks.0, mask.0);
                }
                self.rooks = OxideBitboard(self.rooks.0 & mask.0);
            },
            OxidePiece::Queen => {
                proof {
                    lemma_bit_and(self.queens.0, mask.0);
                }
                self.queens = OxideBitboard(self.queens.0 & mask.0);
            },
            OxidePiece::King => {
                proof {
                    lemma_bit_and(self.kings.0, mask.0);
                }
                self.kings = OxideBitboard(self.kings.0 & mask.0);
            },
            OxidePiece::Empty => {},
        }
        match side {
            OxideSide::White => {
                proof {
                    lemma_bit_and(self.white.0, mask.0);
                }
                self.white = OxideBitboard(self.white.0 & mask.0);
            },
            OxideSide::Black => {
                proof {
                    lemma_bit_and(self.black.0, mask.0);
                }
                self.black = OxideBitboard(self.black.0 & mask.0);
            },
        }
        proof {
            assert forall|i: int| 0 <= i < 64 implies #[trigger] self.square_ok(i) by {
                assert(before.square_ok(i));
            }
            assert forall|i: int| #[trigger]
                self.sided_at(i) == (if i == from_square.index() {
                    OxideSidedPiece::Empty
                } else {
                    before.sided_at(i)
                }) by {
                if 0 <= i < 64 {
                    assert(before.square_ok(i));
                }
            }
        }
    }

    /// Moves `sided_piece` from `from_square`, on which it must stand, to
    /// `to_square`, which must be empty. The move is one exclusive or of
    /// both squares on the set of the kind and on the set of the side, so
    /// that no state in between exists.
    pub fn move_piece(&mut self, sided_piece: OxideSidedPiece, from_square: OxideSquare, to_square: OxideSquare)
        requires
            old(self).wf(),
            sided_piece != OxideSidedPiece::Empty,
            old(self).sided_at(from_square.index()) == sided_piece,
            old(self).sided_at(to_square.index()) == OxideSidedPiece::Empty,
        ensures
            final(self).wf(),
            forall|i: int| #[trigger]
                final(self).sided_at(i) == (if i == to_square.index() {
                    sided_piece
                } else if i == from_square.index() {
                    OxideSidedPiece::Empty
                } else {
                    old(self).sided_at(i)
                }),
    {
        let piece = sided_piece.unsided_piece();
        let side = sided_piece.side();
        let from_mask = from_square.to_mask();
        let to_mask = to_square.to_mask();
        let mask = OxideBitboard(from_mask.0 | to_mask.0);
        let ghost before = *self;
        proof {
            lemma_bit_or(from_mask.0, to_mask.0);
        }
        match piece {
            OxidePiece::Pawn => {
                proof {
                    lemma_bit_xor(self.pawns.0, mask.0);
                }
                self.pawns = OxideBitboard(self.pawns.0 ^ mask.0);
            },
            OxidePiece::Knight => {
                proof {
                    lemma_bit_xor(self.knights.0, mask.0);
                }
                self.knights = OxideBitboard(self.knights.0 ^ mask.0);
            },
            OxidePiece::Bishop => {
                proof {
                    lemma_bit_xor(self.bishops.0, mask.0);
                }
                self.bishops = OxideBitboard(self.bishops.0 ^ mask.0);
            },
            OxidePiece::Rook => {
                proof {
                    lemma_bit_xor(self.rooks.0, mask.0);
                }
                self.rooks = OxideBitboard(self.rooks.0 ^ mask.0);
            },
            OxidePiece::Queen => {
                proof {
                    lemma_bit_xor(self.queens.0, mask.0);
                }
                self.queens = OxideBitboard(self.queens.0 ^ mask.0);
            },
            OxidePiece::King => {
                proof {
                    lemma_bit_xor(self.kings.0, mask.0);
                }
                self.kings = OxideBitboard(self.kings.0 ^ mask.0);
            },
            OxidePiece::Empty => {},
        }
        match side {
            OxideSide::White => {
                proof {
                    lemma_bit_xor(self.white.0, mask.0);
                }
                self.white = OxideBitboard(self.white.0 ^ mask.0);
            },
            OxideSide::Black => {
                proof {
                    lemma_bit_xor(self.black.0, mask.0);
                }
                self.black = OxideBitboard(self.black.0 ^ mask.0);
            },
        }
        proof {
            assert forall|i: int| 0 <= i < 64 implies #[trigger] self.square_ok(i) by {
                assert(before.square_ok(i));
            }
            assert forall|i: int| #[trigger]
                self.sided_at(i) == (if i == to_square.index() {
                    sided_piece
                } else if i == from_square.index() {
                    OxideSidedPiece::Empty
                } else {
                    before.sided_at(i)
                }) by {
                if 0 <= i < 64 {
                    assert(before.square_ok(i));
                }
            }
        }
    }
}

/// The occupancy holds exactly the squares with a piece.
pub proof fn lemma_occupancy(a: OxidePieceArrangement)
    requires
        a.wf(),
    ensures
        forall|i: int| #[trigger]
            bit(a.occupancy(), i) == (on_board(i) && a.sided_at(i) != OxideSidedPiece::Empty),
{
    lemma_bit_or(a.white.0, a.black.0);
    assert forall|i: int| #[trigger]
        bit(a.occupancy(), i) == (on_board(i) && a.sided_at(i) != OxideSidedPiece::Empty) by {
        if 0 <= i < 64 {
            assert(a.square_ok(i));
        }
    }
}

/// No square off the board holds a piece.
pub proof fn lemma_off_board_empty(a: OxidePieceArrangement, i: int)
    requires
        !on_board(i),
    ensures
        a.sided_at(i) == OxideSidedPiece::Empty,
{
}

/// Two well-formed arrangements that hold the same piece on every square
/// are the same arrangement, set for set.
pub proof fn lemma_arrangement_ext(a: OxidePieceArrangement, b: OxidePieceArrangement)
    requires
        a.wf(),
        b.wf(),
        forall|i: int| 0 <= i < 64 ==> a.sided_at(i) == b.sided_at(i),
    ensures
        a == b,
{
    assert forall|i: int| 0 <= i < 64 implies bit(a.pawns.0, i) == bit(b.pawns.0, i) && bit(
        a.knights.0,
        i,
    ) == bit(b.knights.0, i) && bit(a.bishops.0, i) == bit(b.bishops.0, i) && bit(a.rooks.0, i)
        == bit(b.rooks.0, i) && bit(a.queens.0, i) == bit(b.queens.0, i) && bit(a.kings.0, i) == bit(
        b.kings.0,
        i,
    ) && bit(a.white.0, i) == bit(b.white.0, i) && bit(a.black.0, i) == bit(b.black.0, i) by {
        assert(a.square_ok(i));
        assert(b.square_ok(i));
        assert(a.sided_at(i) == b.sided_at(i));
    }
    lemma_bit_ext(a.pawns.0, b.pawns.0);
    lemma_bit_ext(a.knights.0, b.knights.0);
    lemma_bit_ext(a.bishops.0, b.bishops.0);
    lemma_bit_ext(a.rooks.0, b.rooks.0);
    lemma_bit_ext(a.queens.0, b.queens.0);
    lemma_bit_ext(a.kings.0, b.kings.0);
    lemma_bit_ext(a.white.0, b.white.0);
    lemma_bit_ext(a.black.0, b.black.0);
}

impl OxidePieceArrangement {
    /// The arrangement that holds the piece `at(i)` on each square `i`.
    pub closed spec fn holding(at: spec_fn(int) -> OxideSidedPiece) -> OxidePieceArrangement {
        OxidePieceArrangement {
            pawns: OxideBitboard(word_where(|i: int| at(i).kind() == OxidePiece::Pawn, 64)),
            queens: OxideBitboard(word_where(|i: int| at(i).kind() == OxidePiece::Queen, 64)),
            bishops: OxideBitboard(word_where(|i: int| at(i).kind() == OxidePiece::Bishop, 64)),
            kings: OxideBitboard(word_where(|i: int| at(i).kind() == OxidePiece::King, 64)),
            rooks: OxideBitboard(word_where(|i: int| at(i).kind() == OxidePiece::Rook, 64)),
            knights: OxideBitboard(word_where(|i: int| at(i).kind() == OxidePiece::Knight, 64)),
            white: OxideBitboard(
                word_where(
                    |i: int| at(i) != OxideSidedPiece::Empty && at(i).owner() == OxideSide::White,
                    64,
                ),
            ),
            black: OxideBitboard(
                word_where(
                    |i: int| at(i) != OxideSidedPiece::Empty && at(i).owner() == OxideSide::Black,
                    64,
                ),
            ),
        }
    }
}

/// For every way of putting pieces on the squares there is a well-formed
/// arrangement that holds them so.
pub proof fn lemma_holding(at: spec_fn(int) -> OxideSidedPiece)
    ensures
        OxidePieceArrangement::holding(at).wf(),
        forall|i: int| 0 <= i < 64 ==> #[trigger] OxidePieceArrangement::holding(at).sided_at(i) == at(i),
{
    let a = OxidePieceArrangement::holding(at);
    lemma_word_where(|i: int| at(i).kind() == OxidePiece::Pawn, 64);
    lemma_word_where(|i: int| at(i).kind() == OxidePiece::Queen, 64);
    lemma_word_where(|i: int| at(i).kind() == OxidePiece::Bishop, 64);
    lemma_word_where(|i: int| at(i).kind() == OxidePiece::King, 64);
    lemma_word_where(|i: int| at(i).kind() == OxidePiece::Rook, 64);
    lemma_word_where(|i: int| at(i).kind() == OxidePiece::Knight, 64);
    lemma_word_where(|i: int| at(i) != OxideSidedPiece::Empty && at(i).owner() == OxideSide::White, 64);
    lemma_word_where(|i: int| at(i) != OxideSidedPiece::Empty && at(i).owner() == OxideSide::Black, 64);
    assert forall|i: int| 0 <= i < 64 implies #[trigger] a.square_ok(i) && a.sided_at(i) == at(i) by {
        crate::piece::lemma_with_side_round_trip(at(i));
    }
}

} // verus!
