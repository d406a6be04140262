//! Lines of the board: ranks, files and diagonals through two squares.
use vstd::prelude::*;
use crate::bitboard::{OxideBitboard, blsr, lowest_square};
use crate::bits::{
    ALL_SQUARES, bit, file_of, lemma_bit_and, lemma_bit_masks, lemma_bit_or, lemma_bit_shl,
    lemma_bit_single, lemma_bit_xor, lemma_bit_zero, lemma_lowest_bit, on_board, rank_of,
};
use crate::rays::{Direction, has_step_from, slides_to, step_from};
use crate::square::OxideSquare;

verus! {

/// Whether square `i` lies in direction `dir` of square `a`, on the same
/// line, or is `a` itself.
pub open spec fn lies_towards(a: int, i: int, dir: Direction) -> bool {
    let files = file_of(i) - file_of(a);
    let ranks = rank_of(i) - rank_of(a);
    on_board(a) && on_board(i) && match dir {
        Direction::North => files == 0 && ranks >= 0,
        Direction::South => files == 0 && ranks <= 0,
        Direction::East => ranks == 0 && files >= 0,
        Direction::West => ranks == 0 && files <= 0,
        Direction::NorthEast => ranks == files && ranks >= 0,
        Direction::NorthWest => ranks == -files && ranks >= 0,
        Direction::SouthEast => ranks == -files && ranks <= 0,
        Direction::SouthWest => ranks == files && ranks <= 0,
    }
}

/// Whether the squares `a` and `i` share a rank.
pub open spec fn same_rank(a: int, i: int) -> bool {
    rank_of(a) == rank_of(i)
}

/// Whether the squares `a` and `i` share a file.
pub open spec fn same_file(a: int, i: int) -> bool {
    file_of(a) == file_of(i)
}

/// Whether the squares `a` and `i` share a diagonal that rises to the east.
pub open spec fn same_diagonal(a: int, i: int) -> bool {
    rank_of(a) - file_of(a) == rank_of(i) - file_of(i)
}

/// Whether the squares `a` and `i` share a diagonal that falls to the east.
pub open spec fn same_anti_diagonal(a: int, i: int) -> bool {
    rank_of(a) + file_of(a) == rank_of(i) + file_of(i)
}

/// Whether square `i` lies on the line through the squares `a` and `b`: on
/// their rank, file or diagonal, from edge to edge of the board. The line
/// through a square and itself is that square alone, and squares that share
/// no line have none.
pub open spec fn on_line(a: int, b: int, i: int) -> bool {
    on_board(a) && on_board(b) && on_board(i) && if a == b {
        i == a
    } else if same_rank(a, b) {
        same_rank(a, i)
    } else if same_file(a, b) {
        same_file(a, i)
    } else if same_diagonal(a, b) {
        same_diagonal(a, i)
    } else if same_anti_diagonal(a, b) {
        same_anti_diagonal(a, i)
    } else {
        false
    }
}

/// Whether square `i` lies on the line through `a` and `b` and strictly
/// between them.
pub open spec fn strictly_between(a: int, b: int, i: int) -> bool {
    a != b && on_line(a, b, i) && ((a < i && i < b) || (b < i && i < a))
}

/// How many steps apart two squares of one line are: the greater of their
/// distances in files and in ranks.
pub open spec fn span(a: int, i: int) -> int {
    let files = if file_of(i) >= file_of(a) {
        file_of(i) - file_of(a)
    } else {
        file_of(a) - file_of(i)
    };
    let ranks = if rank_of(i) >= rank_of(a) {
        rank_of(i) - rank_of(a)
    } else {
        rank_of(a) - rank_of(i)
    };
    if files >= ranks {
        files
    } else {
        ranks
    }
}

/// One step back changes file and rank by what the direction says.
pub proof fn lemma_step_coordinates(i: int, dir: Direction)
    requires
        has_step_from(i, dir),
    ensures
        on_board(step_from(i, dir)),
        file_of(step_from(i, dir)) == file_of(i) - dir.dx(),
        rank_of(step_from(i, dir)) == rank_of(i) - dir.dy(),
{
    match dir {
        Direction::North => {},
        Direction::South => {},
        Direction::East => {},
        Direction::West => {},
        Direction::NorthEast => {},
        Direction::NorthWest => {},
        Direction::SouthEast => {},
        Direction::SouthWest => {},
    }
}

/// A square is determined by its file and its rank.
pub proof fn lemma_square_coordinates(a: int, i: int)
    requires
        file_of(a) == file_of(i),
        rank_of(a) == rank_of(i),
    ensures
        a == i,
{
}

/// A slide of `n` steps from one square over an empty board reaches exactly
/// the squares that lie in its direction at most `n` steps away.
pub proof fn lemma_slide_steps(a: int, i: int, dir: Direction, n: nat)
    requires
        on_board(a),
    ensures
        slides_to(1u64 << (a as u64), ALL_SQUARES, i, dir, n) == (lies_towards(a, i, dir) && span(a, i)
            <= n),
    decreases n,
{
    lemma_bit_single(a as u64);
    lemma_bit_masks();
    let gen = 1u64 << (a as u64);
    assert(bit(gen, i) == (i == a));
    assert(bit(ALL_SQUARES, i) == on_board(i));
    if i == a {
    } else if n > 0 && has_step_from(i, dir) {
        let prev = step_from(i, dir);
        lemma_step_coordinates(i, dir);
        lemma_slide_steps(a, prev, dir, (n - 1) as nat);
        if lies_towards(a, i, dir) && span(a, i) <= n {
            assert(lies_towards(a, prev, dir) && span(a, prev) <= n - 1) by {
                if file_of(a) == file_of(i) && rank_of(a) == rank_of(i) {
                    lemma_square_coordinates(a, i);
                }
            }
        }
    } else if on_board(i) {
        if file_of(a) == file_of(i) && rank_of(a) == rank_of(i) {
            lemma_square_coordinates(a, i);
        }
    }
}

/// A slide from one square over an empty board reaches exactly the squares
/// that lie in its direction.
pub proof fn lemma_slide_from_one(a: int, i: int, dir: Direction)
    requires
        on_board(a),
    ensures
        slides_to(1u64 << (a as u64), ALL_SQUARES, i, dir, 7) == lies_towards(a, i, dir),
{
    lemma_slide_steps(a, i, dir, 7);
}

/// The squares of the line through `from_square` and `to_square`.
pub fn line_bb(from_square: OxideSquare, to_square: OxideSquare) -> (r: OxideBitboard)
    ensures
        forall|i: int| #[trigger] r.has(i) == on_line(from_square.index(), to_square.index(), i),
{
    let from_mask = from_square.to_mask();
    let to_mask = to_square.to_mask();
    let ghost a = from_square.index();
    let ghost b = to_square.index();
    if from_mask.0 ^ to_mask.0 == 0 {
        proof {
            lemma_bit_xor(from_mask.0, to_mask.0);
            lemma_bit_zero(from_mask.0 ^ to_mask.0);
            assert(bit(from_mask.0 ^ to_mask.0, a) == (bit(from_mask.0, a) != bit(to_mask.0, a)));
        }
        return from_mask;
    }
    proof {
        lemma_bit_xor(from_mask.0, to_mask.0);
        lemma_bit_masks();
        if a == b {
            crate::bits::lemma_bit_ext(from_mask.0, to_mask.0);
            crate::bits::lemma_xor_algebra(from_mask.0, 0, 0);
        }
    }
    let from_rook = from_mask.cardinal_fill();
    let to_rook = to_mask.cardinal_fill();
    let from_bishop = from_mask.diagonal_fill();
    let to_bishop = to_mask.diagonal_fill();
    proof {
        assert forall|i: int|
            #![trigger from_rook.has(i)]
            #![trigger to_rook.has(i)]
            #![trigger from_bishop.has(i)]
            #![trigger to_bishop.has(i)]
            (from_rook.has(i) == (on_board(i) && (same_rank(a, i) || same_file(a, i)))) && (to_rook.has(i)
                == (on_board(i) && (same_rank(b, i) || same_file(b, i)))) && (from_bishop.has(i) == (
            on_board(i) && (same_diagonal(a, i) || same_anti_diagonal(a, i)))) && (to_bishop.has(i) == (
            on_board(i) && (same_diagonal(b, i) || same_anti_diagonal(b, i)))) by {
            lemma_slide_from_one(a, i, Direction::North);
            lemma_slide_from_one(a, i, Direction::South);
            lemma_slide_from_one(a, i, Direction::East);
            lemma_slide_from_one(a, i, Direction::West);
            lemma_slide_from_one(a, i, Direction::NorthEast);
            lemma_slide_from_one(a, i, Direction::NorthWest);
            lemma_slide_from_one(a, i, Direction::SouthEast);
            lemma_slide_from_one(a, i, Direction::SouthWest);
            lemma_slide_from_one(b, i, Direction::North);
            lemma_slide_from_one(b, i, Direction::South);
            lemma_slide_from_one(b, i, Direction::East);
            lemma_slide_from_one(b, i, Direction::West);
            lemma_slide_from_one(b, i, Direction::NorthEast);
            lemma_slide_from_one(b, i, Direction::NorthWest);
            lemma_slide_from_one(b, i, Direction::SouthEast);
            lemma_slide_from_one(b, i, Direction::SouthWest);
        }
        lemma_bit_and(from_rook.0, to_mask.0);
        lemma_bit_zero(from_rook.0 & to_mask.0);
        lemma_bit_and(from_bishop.0, to_mask.0);
        lemma_bit_zero(from_bishop.0 & to_mask.0);
        assert(bit(from_rook.0 & to_mask.0, b) == from_rook.has(b));
        assert(bit(from_bishop.0 & to_mask.0, b) == from_bishop.has(b));
    }
    if from_rook.0 & to_mask.0 != 0 {
        let r = OxideBitboard((from_rook.0 & to_rook.0) | from_mask.0 | to_mask.0);
        proof {
            lemma_bit_and(from_rook.0, to_rook.0);
            lemma_bit_or(from_rook.0 & to_rook.0, from_mask.0);
            lemma_bit_or((from_rook.0 & to_rook.0) | from_mask.0, to_mask.0);
        }
        r
    } else if from_bishop.0 & to_mask.0 != 0 {
        let r = OxideBitboard((from_bishop.0 & to_bishop.0) | from_mask.0 | to_mask.0);
        proof {
            lemma_bit_and(from_bishop.0, to_bishop.0);
            lemma_bit_or(from_bishop.0 & to_bishop.0, from_mask.0);
            lemma_bit_or((from_bishop.0 & to_bishop.0) | from_mask.0, to_mask.0);
        }
        r
    } else {
        OxideBitboard(0)
    }
}

/// The squares of the line through `a` and `b`.
pub fn line_table_lookup(a: OxideSquare, b: OxideSquare) -> (r: OxideBitboard)
    ensures
        forall|i: int| #[trigger] r.has(i) == on_line(a.index(), b.index(), i),
{
    line_bb(a, b)
}

impl OxideBitboard {
    /// The squares of the line through `a` and `b`, from edge to edge of the
    /// board; no square where `a` and `b` share no line.
    pub fn line_fill(a: OxideSquare, b: OxideSquare) -> (r: OxideBitboard)
        ensures
            forall|i: int| #[trigger] r.has(i) == on_line(a.index(), b.index(), i),
    {
        line_table_lookup(a, b)
    }

    /// The squares strictly between `a` and `b` on the line through them; no
    /// square where they share no line.
    pub fn between_fill(a: OxideSquare, b: OxideSquare) -> (r: OxideBitboard)
        ensures
            forall|i: int| #[trigger] r.has(i) == strictly_between(a.index(), b.index(), i),
    {
        let line_mask = Self::line_fill(a, b);
        proof {
            lemma_bit_masks();
        }
        if line_mask.0 != 0 {
            let shift_a = a.offset() as u64;
            let shift_b = b.offset() as u64;
            let above_a = ALL_SQUARES << shift_a;
            let above_b = ALL_SQUARES << shift_b;
            let span = above_a ^ above_b;
            let mask = line_mask.0 & span;
            let r = OxideBitboard(blsr(mask));
            proof {
                let x = a.index();
                let y = b.index();
                lemma_bit_shl(ALL_SQUARES, shift_a);
                lemma_bit_shl(ALL_SQUARES, shift_b);
                lemma_bit_xor(above_a, above_b);
                lemma_bit_and(line_mask.0, span);
                lemma_bit_zero(mask);
                assert forall|i: int| #[trigger]
                    bit(mask, i) == (x != y && on_line(x, y, i) && ((x <= i && i < y) || (y <= i && i < x))) by {}
                if mask != 0 {
                    lemma_lowest_bit(mask);
                    let low = lowest_square(mask);
                    let least = if x < y {
                        x
                    } else {
                        y
                    };
                    assert(bit(mask, least));
                    assert(low == least);
                }
            }
            r
        } else {
            proof {
                lemma_bit_zero(line_mask.0);
                assert forall|i: int| !strictly_between(a.index(), b.index(), i) by {
                    if on_board(i) {
                        assert(!line_mask.has(i));
                    }
                }
            }
            OxideBitboard(0)
        }
    }

    /// Whether `c` lies on the line through `a` and `b`.
    pub fn aligned(a: OxideSquare, b: OxideSquare, c: OxideSquare) -> (r: bool)
        ensures
            r == on_line(a.index(), b.index(), c.index()),
    {
        Self::line_fill(a, b).contains(c)
    }
}

} // verus!
