//! The squares that pieces attack.
//!
//! Each function takes a set of squares on which pieces of one kind stand and
//! returns the set of squares that those pieces attack. The contracts say of
//! every square whether it is in the result.
use vstd::prelude::*;
use crate::bitboard::{OxideBitboard, cardinal_hits, diagonal_hits};
use crate::bits::{
    NOT_AB_FILE, NOT_A_FILE, NOT_GH_FILE, NOT_H_FILE, bit, file_of, lemma_bit_and, lemma_bit_masks,
    lemma_bit_or, lemma_bit_shl, lemma_bit_shr, on_board, rank_of,
};
use crate::piece::OxidePiece;
use crate::rays::{Direction, has_step_from, step_from};
use crate::side::OxideSide;
use crate::square::OxideSquare;

verus! {

/// Whether one step in direction `dir` leads from a square of `gen` to `i`.
pub open spec fn step_hits(gen: u64, i: int, dir: Direction) -> bool {
    has_step_from(i, dir) && bit(gen, step_from(i, dir))
}

/// Whether kings on the squares of `gen` attack square `i`: one step in any
/// of the eight directions leads from one of them to `i`.
pub open spec fn king_hits(gen: u64, i: int) -> bool {
    step_hits(gen, i, Direction::North) || step_hits(gen, i, Direction::South) || step_hits(
        gen,
        i,
        Direction::East,
    ) || step_hits(gen, i, Direction::West) || step_hits(gen, i, Direction::NorthEast) || step_hits(
        gen,
        i,
        Direction::NorthWest,
    ) || step_hits(gen, i, Direction::SouthEast) || step_hits(gen, i, Direction::SouthWest)
}

/// Whether the jump by `dx` files and `dy` ranks leads from a square of `gen`
/// to `i` without leaving the board.
pub open spec fn jump_hits(gen: u64, i: int, dx: int, dy: int) -> bool {
    on_board(i) && 0 <= file_of(i) - dx < 8 && 0 <= rank_of(i) - dy < 8 && bit(gen, i - (8 * dy + dx))
}

/// Whether knights on the squares of `gen` attack square `i`: one of the
/// eight knight jumps leads from one of them to `i`.
pub open spec fn knight_hits(gen: u64, i: int) -> bool {
    jump_hits(gen, i, 1, 2) || jump_hits(gen, i, -1, 2) || jump_hits(gen, i, 1, -2) || jump_hits(
        gen,
        i,
        -1,
        -2,
    ) || jump_hits(gen, i, 2, 1) || jump_hits(gen, i, -2, 1) || jump_hits(gen, i, 2, -1)
        || jump_hits(gen, i, -2, -1)
}

/// The direction in which the pawns of `side` advance.
pub open spec fn pawn_forward(side: OxideSide) -> Direction {
    match side {
        OxideSide::White => Direction::North,
        OxideSide::Black => Direction::South,
    }
}

/// The direction in which the pawns of `side` capture towards the A file.
pub open spec fn pawn_west(side: OxideSide) -> Direction {
    match side {
        OxideSide::White => Direction::NorthWest,
        OxideSide::Black => Direction::SouthWest,
    }
}

/// The direction in which the pawns of `side` capture towards the H file.
pub open spec fn pawn_east(side: OxideSide) -> Direction {
    match side {
        OxideSide::White => Direction::NorthEast,
        OxideSide::Black => Direction::SouthEast,
    }
}

/// Whether pawns of `side` on the squares of `gen` attack square `i`.
pub open spec fn pawn_hits(gen: u64, side: OxideSide, i: int) -> bool {
    step_hits(gen, i, pawn_west(side)) || step_hits(gen, i, pawn_east(side))
}

/// Whether pieces of kind `piece` on the squares of `gen` attack square `i`
/// when the squares of `occupied` hold pieces. Pawns are not covered: what
/// they attack depends on their side.
pub open spec fn piece_hits(piece: OxidePiece, gen: u64, occupied: u64, i: int) -> bool {
    match piece {
        OxidePiece::Knight => knight_hits(gen, i),
        OxidePiece::Bishop => diagonal_hits(gen, !occupied, i),
        OxidePiece::Rook => cardinal_hits(gen, !occupied, i),
        OxidePiece::Queen => diagonal_hits(gen, !occupied, i) || cardinal_hits(gen, !occupied, i),
        OxidePiece::King => king_hits(gen, i),
        _ => false,
    }
}

/// The squares next to a square of `king_mask`.
pub fn king_attacks(king_mask: OxideBitboard) -> (r: OxideBitboard)
    ensures
        forall|i: int| #[trigger] r.has(i) == king_hits(king_mask.0, i),
{
    let east = king_mask.east_shift();
    let west = king_mask.west_shift();
    let side_attacks = OxideBitboard(east.0 | west.0);
    let row = OxideBitboard(side_attacks.0 | king_mask.0);
    let north = row.north_shift();
    let south = row.south_shift();
    let r = OxideBitboard(side_attacks.0 | north.0 | south.0);
    proof {
        lemma_bit_or(east.0, west.0);
        lemma_bit_or(side_attacks.0, king_mask.0);
        lemma_bit_or(side_attacks.0, north.0);
        lemma_bit_or(side_attacks.0 | north.0, south.0);
        assert forall|i: int| #[trigger] r.has(i) == king_hits(king_mask.0, i) by {
            if on_board(i) {
                assert(step_from(step_from(i, Direction::North), Direction::East) == step_from(
                    i,
                    Direction::NorthEast,
                ));
                assert(step_from(step_from(i, Direction::North), Direction::West) == step_from(
                    i,
                    Direction::NorthWest,
                ));
                assert(step_from(step_from(i, Direction::South), Direction::East) == step_from(
                    i,
                    Direction::SouthEast,
                ));
                assert(step_from(step_from(i, Direction::South), Direction::West) == step_from(
                    i,
                    Direction::SouthWest,
                ));
            }
        }
    }
    r
}

/// The squares a knight jump away from a square of `knight_mask`.
pub fn knight_attacks(knight_mask: OxideBitboard) -> (r: OxideBitboard)
    ensures
        forall|i: int| #[trigger] r.has(i) == knight_hits(knight_mask.0, i),
{
    let m = knight_mask.0;
    let west_one = ((m << 15u64) | (m >> 17u64)) & NOT_H_FILE;
    let east_one = ((m >> 15u64) | (m << 17u64)) & NOT_A_FILE;
    let west_two = ((m << 6u64) | (m >> 10u64)) & NOT_GH_FILE;
    let east_two = ((m >> 6u64) | (m << 10u64)) & NOT_AB_FILE;
    let r = OxideBitboard(west_one | east_one | west_two | east_two);
    proof {
        lemma_bit_masks();
        lemma_bit_shl(m, 15);
        lemma_bit_shr(m, 17);
        lemma_bit_shr(m, 15);
        lemma_bit_shl(m, 17);
        lemma_bit_shl(m, 6);
        lemma_bit_shr(m, 10);
        lemma_bit_shr(m, 6);
        lemma_bit_shl(m, 10);
        lemma_bit_or(m << 15u64, m >> 17u64);
        lemma_bit_or(m >> 15u64, m << 17u64);
        lemma_bit_or(m << 6u64, m >> 10u64);
        lemma_bit_or(m >> 6u64, m << 10u64);
        lemma_bit_and((m << 15u64) | (m >> 17u64), NOT_H_FILE);
        lemma_bit_and((m >> 15u64) | (m << 17u64), NOT_A_FILE);
        lemma_bit_and((m << 6u64) | (m >> 10u64), NOT_GH_FILE);
        lemma_bit_and((m >> 6u64) | (m << 10u64), NOT_AB_FILE);
        lemma_bit_or(west_one, east_one);
        lemma_bit_or(west_one | east_one, west_two);
        lemma_bit_or(west_one | east_one | west_two, east_two);
    }
    r
}

/// The squares onto which pawns of `side` on the squares of `pawn_mask`
/// advance by one step, whether or not those squares are free.
pub fn pawn_pushes(pawn_mask: OxideBitboard, side: OxideSide) -> (r: OxideBitboard)
    ensures
        forall|i: int| #[trigger] r.has(i) == step_hits(pawn_mask.0, i, pawn_forward(side)),
{
    if side.is_white() {
        pawn_mask.north_shift()
    } else {
        pawn_mask.south_shift()
    }
}

/// The squares that pawns of `side` attack towards the A file.
pub fn pawn_west_attacks(pawn_mask: OxideBitboard, side: OxideSide) -> (r: OxideBitboard)
    ensures
        forall|i: int| #[trigger] r.has(i) == step_hits(pawn_mask.0, i, pawn_west(side)),
{
    if side.is_white() {
        pawn_mask.north_west_shift()
    } else {
        pawn_mask.south_west_shift()
    }
}

/// The squares that pawns of `side` attack towards the H file.
pub fn pawn_east_attacks(pawn_mask: OxideBitboard, side: OxideSide) -> (r: OxideBitboard)
    ensures
        forall|i: int| #[trigger] r.has(i) == step_hits(pawn_mask.0, i, pawn_east(side)),
{
    if side.is_white() {
        pawn_mask.north_east_shift()
    } else {
        pawn_mask.south_east_shift()
    }
}

/// The squares that pawns of `side` attack.
pub fn pawn_attacks(pawn_mask: OxideBitboard, side: OxideSide) -> (r: OxideBitboard)
    ensures
        forall|i: int| #[trigger] r.has(i) == pawn_hits(pawn_mask.0, side, i),
{
    let west = pawn_west_attacks(pawn_mask, side);
    let east = pawn_east_attacks(pawn_mask, side);
    proof {
        lemma_bit_or(west.0, east.0);
    }
    OxideBitboard(west.0 | east.0)
}

/// The squares that bishops on the squares of `from_mask` attack when the
/// squares of `occupied_mask` hold pieces.
pub fn bishop_attacks(from_mask: OxideBitboard, occupied_mask: OxideBitboard) -> (r: OxideBitboard)
    ensures
        forall|i: int| #[trigger] r.has(i) == diagonal_hits(from_mask.0, !occupied_mask.0, i),
{
    from_mask.diagonal_ray_attacks(OxideBitboard(!occupied_mask.0))
}

/// The squares that rooks on the squares of `from_mask` attack when the
/// squares of `occupied_mask` hold pieces.
pub fn rook_attacks(from_mask: OxideBitboard, occupied_mask: OxideBitboard) -> (r: OxideBitboard)
    ensures
        forall|i: int| #[trigger] r.has(i) == cardinal_hits(from_mask.0, !occupied_mask.0, i),
{
    from_mask.cardinal_ray_attacks(OxideBitboard(!occupied_mask.0))
}

/// The squares that queens on the squares of `from_mask` attack when the
/// squares of `occupied_mask` hold pieces.
pub fn queen_attacks(from_mask: OxideBitboard, occupied_mask: OxideBitboard) -> (r: OxideBitboard)
    ensures
        forall|i: int| #[trigger]
            r.has(i) == (diagonal_hits(from_mask.0, !occupied_mask.0, i) || cardinal_hits(
                from_mask.0,
                !occupied_mask.0,
                i,
            )),
{
    let bishop = bishop_attacks(from_mask, occupied_mask);
    let rook = rook_attacks(from_mask, occupied_mask);
    proof {
        lemma_bit_or(bishop.0, rook.0);
    }
    OxideBitboard(bishop.0 | rook.0)
}

/// The squares that a piece of kind `piece` on `from_square` attacks when
/// the squares of `occupied` hold pieces. The kind must not be a pawn, whose
/// attacks depend on its side, nor `Empty`.
pub fn pseudo_attacks(piece: OxidePiece, from_square: OxideSquare, occupied: OxideBitboard) -> (r:
    OxideBitboard)
    requires
        piece != OxidePiece::Pawn,
        piece != OxidePiece::Empty,
    ensures
        forall|i: int| #[trigger]
            r.has(i) == piece_hits(piece, 1u64 << (from_square.index() as u64), occupied.0, i),
{
    let from_mask = from_square.to_mask();
    match piece {
        OxidePiece::Bishop => bishop_attacks(from_mask, occupied),
        OxidePiece::Rook => rook_attacks(from_mask, occupied),
        OxidePiece::King => king_attacks(from_mask),
        OxidePiece::Knight => knight_attacks(from_mask),
        _ => queen_attacks(from_mask, occupied),
    }
}

} // verus!
