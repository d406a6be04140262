//! Bitboards: sets of squares held in one 64-bit word.
use vstd::prelude::*;
use vstd::std_specs::bits::u64_trailing_zeros;
use crate::bits::{
    ALL_SQUARES, FILE_A, NOT_A_FILE, NOT_H_FILE, RANK_ONE, bit, file_of, lemma_bit_and,
    lemma_bit_file, lemma_bit_masks, lemma_bit_or, lemma_bit_rank, lemma_bit_single, lemma_bit_xor,
    lemma_lowest_bit, on_board, rank_of,
};
use crate::rays::{
    Direction, doubling_fill, doubling_fill_down, doubling_fill_up, doubling_occluded,
    doubling_occluded_down, doubling_occluded_up, has_step_from, lemma_doubling_fill,
    lemma_doubling_occluded, lemma_shifted_bits, shifted, slides_to, step_from,
};
use crate::square::OxideSquare;

verus! {

/// A set of squares. Bit `i` of the word is set exactly when square `i`
/// belongs to the set.
#[derive(Clone, Copy, Debug, PartialEq, Eq, Structural, Hash)]
pub struct OxideBitboard(pub u64);

/// The number of the lowest square of a set that is not empty.
pub open spec fn lowest_square(x: u64) -> int {
    u64_trailing_zeros(x) as int
}

/// How many of the squares below `n` the set `x` holds.
pub open spec fn count_below(x: u64, n: nat) -> nat
    decreases n,
{
    if n == 0 {
        0
    } else {
        count_below(x, (n - 1) as nat) + if bit(x, n - 1) {
            1nat
        } else {
            0nat
        }
    }
}

/// Whether sliding pieces on the squares of `gen` attack square `i` in
/// direction `dir`, when exactly the squares of `empty` are free: the square
/// one step behind `i` is reached by the slide.
pub open spec fn ray_hits(gen: u64, empty: u64, i: int, dir: Direction) -> bool {
    has_step_from(i, dir) && slides_to(gen, empty, step_from(i, dir), dir, 7)
}

/// Whether rooks on the squares of `gen` attack square `i`.
pub open spec fn cardinal_hits(gen: u64, empty: u64, i: int) -> bool {
    ray_hits(gen, empty, i, Direction::North) || ray_hits(gen, empty, i, Direction::South)
        || ray_hits(gen, empty, i, Direction::East) || ray_hits(gen, empty, i, Direction::West)
}

/// Whether bishops on the squares of `gen` attack square `i`.
pub open spec fn diagonal_hits(gen: u64, empty: u64, i: int) -> bool {
    ray_hits(gen, empty, i, Direction::NorthWest) || ray_hits(gen, empty, i, Direction::NorthEast)
        || ray_hits(gen, empty, i, Direction::SouthWest) || ray_hits(
        gen,
        empty,
        i,
        Direction::SouthEast,
    )
}

proof fn bv_clear_lowest(x: u64, t: u64)
    by (bit_vector)
    requires
        t < 64,
        (x >> t) & 1 == 1,
        x << ((64 - t) as u64) == 0,
    ensures
        x != 0,
        x & ((x - 1) as u64) == x ^ (1u64 << t),
{
}

/// The word without its lowest set bit; zero stays zero.
pub fn blsr(mask: u64) -> (r: u64)
    ensures
        mask == 0 ==> r == 0,
        mask != 0 ==> forall|i: int| #[trigger] bit(r, i) == (bit(mask, i) && i != lowest_square(mask)),
{
    if mask != 0 {
        proof {
            let t = u64_trailing_zeros(mask) as u64;
            vstd::std_specs::bits::axiom_u64_trailing_zeros(mask);
            bv_clear_lowest(mask, t);
            lemma_bit_single(t);
            lemma_bit_xor(mask, 1u64 << t);
        }
    } else {
        assert(0u64 & 0u64 == 0u64) by (bit_vector);
    }
    mask & mask.saturating_sub(1)
}

/// Takes the lowest square out of the set held in `mask` and returns it;
/// returns nothing, and leaves the set as it is, when it is empty.
pub fn pop_square(mask: &mut u64) -> (r: Option<OxideSquare>)
    ensures
        *old(mask) == 0 ==> r.is_none() && *final(mask) == 0,
        *old(mask) != 0 ==> r.is_some() && r.unwrap().index() == lowest_square(*old(mask)) && bit(
            *old(mask),
            r.unwrap().index(),
        ) && (forall|i: int| 0 <= i < r.unwrap().index() ==> !bit(*old(mask), i)) && (forall|i: int| #[trigger]
            bit(*final(mask), i) == (bit(*old(mask), i) && i != r.unwrap().index())),
{
    if *mask == 0 {
        None
    } else {
        proof {
            lemma_lowest_bit(*mask);
        }
        let offset = mask.trailing_zeros();
        let square = OxideSquare::from_offset(offset as u8);
        *mask = blsr(*mask);
        square
    }
}

fn occluded_up(gen: u64, empty: u64, c: u64, col: u64) -> (r: u64)
    requires
        1 <= c <= 9,
    ensures
        r == doubling_occluded_up(gen, empty, c, col),
{
    let mut mask = gen;
    let mut free = empty & col;
    mask = mask | (free & (mask << c));
    free = free & (free << c);
    mask = mask | (free & (mask << (2 * c)));
    free = free & (free << (2 * c));
    mask | (free & (mask << (4 * c)))
}

fn occluded_down(gen: u64, empty: u64, c: u64, col: u64) -> (r: u64)
    requires
        1 <= c <= 9,
    ensures
        r == doubling_occluded_down(gen, empty, c, col),
{
    let mut mask = gen;
    let mut free = empty & col;
    mask = mask | (free & (mask >> c));
    free = free & (free >> c);
    mask = mask | (free & (mask >> (2 * c)));
    free = free & (free >> (2 * c));
    mask | (free & (mask >> (4 * c)))
}

fn fill_up(gen: u64, c: u64, col: u64) -> (r: u64)
    requires
        1 <= c <= 9,
    ensures
        r == doubling_fill_up(gen, c, col),
{
    let keep_two = col & (col << c);
    let keep_four = keep_two & (keep_two << (2 * c));
    let mut mask = gen;
    mask = mask | (col & (mask << c));
    mask = mask | (keep_two & (mask << (2 * c)));
    mask | (keep_four & (mask << (4 * c)))
}

fn fill_down(gen: u64, c: u64, col: u64) -> (r: u64)
    requires
        1 <= c <= 9,
    ensures
        r == doubling_fill_down(gen, c, col),
{
    let keep_two = col & (col >> c);
    let keep_four = keep_two & (keep_two >> (2 * c));
    let mut mask = gen;
    mask = mask | (col & (mask >> c));
    mask = mask | (keep_two & (mask >> (2 * c)));
    mask | (keep_four & (mask >> (4 * c)))
}

impl OxideBitboard {
    /// Whether square `i` belongs to the set.
    #[verifier::inline]
    pub open spec fn has(self, i: int) -> bool {
        bit(self.0, i)
    }

    /// How many squares the set holds.
    pub open spec fn size(self) -> nat {
        count_below(self.0, 64)
    }

    /// The set that holds A1 alone.
    pub fn square() -> (r: OxideBitboard)
        ensures
            r.0 == 1,
            forall|i: int| #[trigger] r.has(i) == (i == 0),
    {
        proof {
            lemma_bit_single(0);
            assert(1u64 << 0u64 == 1u64) by (bit_vector);
        }
        OxideBitboard(1u64)
    }

    /// The set without squares.
    pub fn empty() -> (r: OxideBitboard)
        ensures
            r.0 == 0,
            forall|i: int| !#[trigger] r.has(i),
    {
        proof {
            lemma_bit_masks();
        }
        OxideBitboard(0u64)
    }

    /// The set of all squares.
    pub fn full() -> (r: OxideBitboard)
        ensures
            r.0 == ALL_SQUARES,
            forall|i: int| #[trigger] r.has(i) == on_board(i),
    {
        proof {
            lemma_bit_masks();
        }
        OxideBitboard(ALL_SQUARES)
    }

    /// The squares of file `file`, counted from 0 for the A file.
    pub fn file_mask(file: u8) -> (r: OxideBitboard)
        requires
            file < 8,
        ensures
            forall|i: int| #[trigger] r.has(i) == (on_board(i) && file_of(i) == file),
    {
        proof {
            lemma_bit_file(file as u64);
        }
        OxideBitboard(FILE_A << (file as u64))
    }

    /// The squares of rank `rank`, counted from 0 for the first rank.
    pub fn rank_mask(rank: u8) -> (r: OxideBitboard)
        requires
            rank < 8,
        ensures
            forall|i: int| #[trigger] r.has(i) == (on_board(i) && rank_of(i) == rank),
    {
        proof {
            lemma_bit_rank(rank as u64);
        }
        OxideBitboard(RANK_ONE << (8 * (rank as u64)))
    }

    /// The squares of the A file.
    pub fn a_file() -> (r: OxideBitboard)
        ensures
            forall|i: int| #[trigger] r.has(i) == (on_board(i) && file_of(i) == 0),
    {
        Self::file_mask(0)
    }

    /// The squares of the B file.
    pub fn b_file() -> (r: OxideBitboard)
        ensures
            forall|i: int| #[trigger] r.has(i) == (on_board(i) && file_of(i) == 1),
    {
        Self::file_mask(1)
    }

    /// The squares of the C file.
    pub fn c_file() -> (r: OxideBitboard)
        ensures
            forall|i: int| #[trigger] r.has(i) == (on_board(i) && file_of(i) == 2),
    {
        Self::file_mask(2)
    }

    /// The squares of the D file.
    pub fn d_file() -> (r: OxideBitboard)
        ensures
            forall|i: int| #[trigger] r.has(i) == (on_board(i) && file_of(i) == 3),
    {
        Self::file_mask(3)
    }

    /// The squares of the E file.
    pub fn e_file() -> (r: OxideBitboard)
        ensures
            forall|i: int| #[trigger] r.has(i) == (on_board(i) && file_of(i) == 4),
    {
        Self::file_mask(4)
    }

    /// The squares of the F file.
    pub fn f_file() -> (r: OxideBitboard)
        ensures
            forall|i: int| #[trigger] r.has(i) == (on_board(i) && file_of(i) == 5),
    {
        Self::file_mask(5)
    }

    /// The squares of the G file.
    pub fn g_file() -> (r: OxideBitboard)
        ensures
            forall|i: int| #[trigger] r.has(i) == (on_board(i) && file_of(i) == 6),
    {
        Self::file_mask(6)
    }

    /// The squares of the H file.
    pub fn h_file() -> (r: OxideBitboard)
        ensures
            forall|i: int| #[trigger] r.has(i) == (on_board(i) && file_of(i) == 7),
    {
        Self::file_mask(7)
    }

    /// The squares of the first rank.
    pub fn rank_1() -> (r: OxideBitboard)
        ensures
            forall|i: int| #[trigger] r.has(i) == (on_board(i) && rank_of(i) == 0),
    {
        Self::rank_mask(0)
    }

    /// The squares of the second rank.
    pub fn rank_2() -> (r: OxideBitboard)
        ensures
            forall|i: int| #[trigger] r.has(i) == (on_board(i) && rank_of(i) == 1),
    {
        Self::rank_mask(1)
    }

    /// The squares of the third rank.
    pub fn rank_3() -> (r: OxideBitboard)
        ensures
            forall|i: int| #[trigger] r.has(i) == (on_board(i) && rank_of(i) == 2),
    {
        Self::rank_mask(2)
    }

    /// The squares of the fourth rank.
    pub fn rank_4() -> (r: OxideBitboard)
        ensures
            forall|i: int| #[trigger] r.has(i) == (on_board(i) && rank_of(i) == 3),
    {
        Self::rank_mask(3)
    }

    /// The squares of the fifth rank.
    pub fn rank_5() -> (r: OxideBitboard)
        ensures
            forall|i: int| #[trigger] r.has(i) == (on_board(i) && rank_of(i) == 4),
    {
        Self::rank_mask(4)
    }

    /// The squares of the sixth rank.
    pub fn rank_6() -> (r: OxideBitboard)
        ensures
            forall|i: int| #[trigger] r.has(i) == (on_board(i) && rank_of(i) == 5),
    {
        Self::rank_mask(5)
    }

    /// The squares of the seventh rank.
    pub fn rank_7() -> (r: OxideBitboard)
        ensures
            forall|i: int| #[trigger] r.has(i) == (on_board(i) && rank_of(i) == 6),
    {
        Self::rank_mask(6)
    }

    /// The squares of the eighth rank.
    pub fn rank_8() -> (r: OxideBitboard)
        ensures
            forall|i: int| #[trigger] r.has(i) == (on_board(i) && rank_of(i) == 7),
    {
        Self::rank_mask(7)
    }

    /// Every square of the set moved one step to the north; squares that
    /// would leave the board, or wrap to the far file, are dropped.
    pub fn north_shift(self) -> (r: OxideBitboard)
        ensures
            r.0 == shifted(self.0, Direction::North),
            forall|i: int| #[trigger]
                r.has(i) == (has_step_from(i, Direction::North) && self.has(
                    step_from(i, Direction::North),
                )),
    {
        let r = OxideBitboard(self.0 << 8u64);
        proof {
            lemma_shifted_bits(self.0, Direction::North);
            assert(r.0 == shifted(self.0, Direction::North));
        }
        r
    }

    /// Every square of the set moved one step to the south; squares that
    /// would leave the board, or wrap to the far file, are dropped.
    pub fn south_shift(self) -> (r: OxideBitboard)
        ensures
            r.0 == shifted(self.0, Direction::South),
            forall|i: int| #[trigger]
                r.has(i) == (has_step_from(i, Direction::South) && self.has(
                    step_from(i, Direction::South),
                )),
    {
        let r = OxideBitboard(self.0 >> 8u64);
        proof {
            lemma_shifted_bits(self.0, Direction::South);
            assert(r.0 == shifted(self.0, Direction::South));
        }
        r
    }

    /// Every square of the set moved one step to the east; squares that
    /// would leave the board, or wrap to the far file, are dropped.
    pub fn east_shift(self) -> (r: OxideBitboard)
        ensures
            r.0 == shifted(self.0, Direction::East),
            forall|i: int| #[trigger]
                r.has(i) == (has_step_from(i, Direction::East) && self.has(
                    step_from(i, Direction::East),
                )),
    {
        let r = OxideBitboard((self.0 << 1u64) & NOT_A_FILE);
        proof {
            lemma_shifted_bits(self.0, Direction::East);
            assert(r.0 == shifted(self.0, Direction::East));
        }
        r
    }

    /// Every square of the set moved one step to the west; squares that
    /// would leave the board, or wrap to the far file, are dropped.
    pub fn west_shift(self) -> (r: OxideBitboard)
        ensures
            r.0 == shifted(self.0, Direction::West),
            forall|i: int| #[trigger]
                r.has(i) == (has_step_from(i, Direction::West) && self.has(
                    step_from(i, Direction::West),
                )),
    {
        let r = OxideBitboard((self.0 >> 1u64) & NOT_H_FILE);
        proof {
            lemma_shifted_bits(self.0, Direction::West);
            assert(r.0 == shifted(self.0, Direction::West));
        }
        r
    }

    /// Every square of the set moved one step to the north-east; squares that
    /// would leave the board, or wrap to the far file, are dropped.
    pub fn north_east_shift(self) -> (r: OxideBitboard)
        ensures
            r.0 == shifted(self.0, Direction::NorthEast),
            forall|i: int| #[trigger]
                r.has(i) == (has_step_from(i, Direction::NorthEast) && self.has(
                    step_from(i, Direction::NorthEast),
                )),
    {
        let r = OxideBitboard((self.0 << 9u64) & NOT_A_FILE);
        proof {
            lemma_shifted_bits(self.0, Direction::NorthEast);
            assert(r.0 == shifted(self.0, Direction::NorthEast));
        }
        r
    }

    /// Every square of the set moved one step to the north-west; squares that
    /// would leave the board, or wrap to the far file, are dropped.
    pub fn north_west_shift(self) -> (r: OxideBitboard)
        ensures
            r.0 == shifted(self.0, Direction::NorthWest),
            forall|i: int| #[trigger]
                r.has(i) == (has_step_from(i, Direction::NorthWest) && self.has(
                    step_from(i, Direction::NorthWest),
                )),
    {
        let r = OxideBitboard((self.0 << 7u64) & NOT_H_FILE);
        proof {
            lemma_shifted_bits(self.0, Direction::NorthWest);
            assert(r.0 == shifted(self.0, Direction::NorthWest));
        }
        r
    }

    /// Every square of the set moved one step to the south-east; squares that
    /// would leave the board, or wrap to the far file, are dropped.
    pub fn south_east_shift(self) -> (r: OxideBitboard)
        ensures
            r.0 == shifted(self.0, Direction::SouthEast),
            forall|i: int| #[trigger]
                r.has(i) == (has_step_from(i, Direction::SouthEast) && self.has(
                    step_from(i, Direction::SouthEast),
                )),
    {
        let r = OxideBitboard((self.0 >> 7u64) & NOT_A_FILE);
        proof {
            lemma_shifted_bits(self.0, Direction::SouthEast);
            assert(r.0 == shifted(self.0, Direction::SouthEast));
        }
        r
    }

    /// Every square of the set moved one step to the south-west; squares that
    /// would leave the board, or wrap to the far file, are dropped.
    pub fn south_west_shift(self) -> (r: OxideBitboard)
        ensures
            r.0 == shifted(self.0, Direction::SouthWest),
            forall|i: int| #[trigger]
                r.has(i) == (has_step_from(i, Direction::SouthWest) && self.has(
                    step_from(i, Direction::SouthWest),
                )),
    {
        let r = OxideBitboard((self.0 >> 9u64) & NOT_H_FILE);
        proof {
            lemma_shifted_bits(self.0, Direction::SouthWest);
            assert(r.0 == shifted(self.0, Direction::SouthWest));
        }
        r
    }

    /// The set together with every square that lies to the north of one of
    /// its squares on the same line.
    pub fn north_fill(self) -> (r: OxideBitboard)
        ensures
            forall|i: int| #[trigger]
                r.has(i) == slides_to(self.0, ALL_SQUARES, i, Direction::North, 7),
    {
        let r = OxideBitboard(fill_up(self.0, 8, ALL_SQUARES));
        proof {
            lemma_doubling_fill(self.0, Direction::North);
            assert(r.0 == doubling_fill(self.0, Direction::North));
        }
        r
    }

    /// The set together with every square that lies to the south of one of
    /// its squares on the same line.
    pub fn south_fill(self) -> (r: OxideBitboard)
        ensures
            forall|i: int| #[trigger]
                r.has(i) == slides_to(self.0, ALL_SQUARES, i, Direction::South, 7),
    {
        let r = OxideBitboard(fill_down(self.0, 8, ALL_SQUARES));
        proof {
            lemma_doubling_fill(self.0, Direction::South);
            assert(r.0 == doubling_fill(self.0, Direction::South));
        }
        r
    }

    /// The set together with every square that lies to the east of one of
    /// its squares on the same line.
    pub fn east_fill(self) -> (r: OxideBitboard)
        ensures
            forall|i: int| #[trigger]
                r.has(i) == slides_to(self.0, ALL_SQUARES, i, Direction::East, 7),
    {
        let r = OxideBitboard(fill_up(self.0, 1, NOT_A_FILE));
        proof {
            lemma_doubling_fill(self.0, Direction::East);
            assert(r.0 == doubling_fill(self.0, Direction::East));
        }
        r
    }

    /// The set together with every square that lies to the west of one of
    /// its squares on the same line.
    pub fn west_fill(self) -> (r: OxideBitboard)
        ensures
            forall|i: int| #[trigger]
                r.has(i) == slides_to(self.0, ALL_SQUARES, i, Direction::West, 7),
    {
        let r = OxideBitboard(fill_down(self.0, 1, NOT_H_FILE));
        proof {
            lemma_doubling_fill(self.0, Direction::West);
            assert(r.0 == doubling_fill(self.0, Direction::West));
        }
        r
    }

    /// The set together with every square that lies to the north-east of one of
    /// its squares on the same line.
    pub fn north_east_fill(self) -> (r: OxideBitboard)
        ensures
            forall|i: int| #[trigger]
                r.has(i) == slides_to(self.0, ALL_SQUARES, i, Direction::NorthEast, 7),
    {
        let r = OxideBitboard(fill_up(self.0, 9, NOT_A_FILE));
        proof {
            lemma_doubling_fill(self.0, Direction::NorthEast);
            assert(r.0 == doubling_fill(self.0, Direction::NorthEast));
        }
        r
    }

    /// The set together with every square that lies to the north-west of one of
    /// its squares on the same line.
    pub fn north_west_fill(self) -> (r: OxideBitboard)
        ensures
            forall|i: int| #[trigger]
                r.has(i) == slides_to(self.0, ALL_SQUARES, i, Direction::NorthWest, 7),
    {
        let r = OxideBitboard(fill_up(self.0, 7, NOT_H_FILE));
        proof {
            lemma_doubling_fill(self.0, Direction::NorthWest);
            assert(r.0 == doubling_fill(self.0, Direction::NorthWest));
        }
        r
    }

    /// The set together with every square that lies to the south-east of one of
    /// its squares on the same line.
    pub fn south_east_fill(self) -> (r: OxideBitboard)
        ensures
            forall|i: int| #[trigger]
                r.has(i) == slides_to(self.0, ALL_SQUARES, i, Direction::SouthEast, 7),
    {
        let r = OxideBitboard(fill_down(self.0, 7, NOT_A_FILE));
        proof {
            lemma_doubling_fill(self.0, Direction::SouthEast);
            assert(r.0 == doubling_fill(self.0, Direction::SouthEast));
        }
        r
    }

    /// The set together with every square that lies to the south-west of one of
    /// its squares on the same line.
    pub fn south_west_fill(self) -> (r: OxideBitboard)
        ensures
            forall|i: int| #[trigger]
                r.has(i) == slides_to(self.0, ALL_SQUARES, i, Direction::SouthWest, 7),
    {
        let r = OxideBitboard(fill_down(self.0, 9, NOT_H_FILE));
        proof {
            lemma_doubling_fill(self.0, Direction::SouthWest);
            assert(r.0 == doubling_fill(self.0, Direction::SouthWest));
        }
        r
    }

    /// The set together with every square that shares a file with one of its
    /// squares.
    pub fn file_fill(self) -> (r: OxideBitboard)
        ensures
            forall|i: int| #[trigger]
                r.has(i) == (slides_to(self.0, ALL_SQUARES, i, Direction::South, 7) || slides_to(
                    self.0,
                    ALL_SQUARES,
                    i,
                    Direction::North,
                    7,
                )),
    {
        let south = self.south_fill();
        let north = self.north_fill();
        proof {
            lemma_bit_or(south.0, north.0);
        }
        OxideBitboard(south.0 | north.0)
    }

    /// The set together with every square that shares a rank with one of its
    /// squares.
    pub fn rank_fill(self) -> (r: OxideBitboard)
        ensures
            forall|i: int| #[trigger]
                r.has(i) == (slides_to(self.0, ALL_SQUARES, i, Direction::East, 7) || slides_to(
                    self.0,
                    ALL_SQUARES,
                    i,
                    Direction::West,
                    7,
                )),
    {
        let east = self.east_fill();
        let west = self.west_fill();
        proof {
            lemma_bit_or(east.0, west.0);
        }
        OxideBitboard(east.0 | west.0)
    }

    /// The set together with every square that shares a file or a rank with
    /// one of its squares.
    pub fn cardinal_fill(self) -> (r: OxideBitboard)
        ensures
            forall|i: int| #[trigger]
                r.has(i) == (slides_to(self.0, ALL_SQUARES, i, Direction::North, 7) || slides_to(
                    self.0,
                    ALL_SQUARES,
                    i,
                    Direction::South,
                    7,
                ) || slides_to(self.0, ALL_SQUARES, i, Direction::East, 7) || slides_to(
                    self.0,
                    ALL_SQUARES,
                    i,
                    Direction::West,
                    7,
                )),
    {
        let north = self.north_fill();
        let south = self.south_fill();
        let east = self.east_fill();
        let west = self.west_fill();
        proof {
            lemma_bit_or(north.0, south.0);
            lemma_bit_or(north.0 | south.0, east.0);
            lemma_bit_or(north.0 | south.0 | east.0, west.0);
        }
        OxideBitboard(north.0 | south.0 | east.0 | west.0)
    }

    /// The set together with every square that shares a diagonal with one of
    /// its squares.
    pub fn diagonal_fill(self) -> (r: OxideBitboard)
        ensures
            forall|i: int| #[trigger]
                r.has(i) == (slides_to(self.0, ALL_SQUARES, i, Direction::NorthEast, 7)
                    || slides_to(self.0, ALL_SQUARES, i, Direction::NorthWest, 7) || slides_to(
                    self.0,
                    ALL_SQUARES,
                    i,
                    Direction::SouthEast,
                    7,
                ) || slides_to(self.0, ALL_SQUARES, i, Direction::SouthWest, 7)),
    {
        let north_east = self.north_east_fill();
        let north_west = self.north_west_fill();
        let south_east = self.south_east_fill();
        let south_west = self.south_west_fill();
        proof {
            lemma_bit_or(north_east.0, north_west.0);
            lemma_bit_or(north_east.0 | north_west.0, south_east.0);
            lemma_bit_or(north_east.0 | north_west.0 | south_east.0, south_west.0);
        }
        OxideBitboard(north_east.0 | north_west.0 | south_east.0 | south_west.0)
    }

    /// The set together with the squares that a slide to the north reaches
    /// from it over the squares of `empty`. The slide stops in front of the
    /// first square that is not empty.
    pub fn north_occluded_fill(self, empty: OxideBitboard) -> (r: OxideBitboard)
        ensures
            forall|i: int| #[trigger]
                r.has(i) == slides_to(self.0, empty.0, i, Direction::North, 7),
    {
        let r = OxideBitboard(occluded_up(self.0, empty.0, 8, ALL_SQUARES));
        proof {
            lemma_doubling_occluded(self.0, empty.0, Direction::North);
            assert(r.0 == doubling_occluded(self.0, empty.0, Direction::North));
        }
        r
    }

    /// The set together with the squares that a slide to the south reaches
    /// from it over the squares of `empty`. The slide stops in front of the
    /// first square that is not empty.
    pub fn south_occluded_fill(self, empty: OxideBitboard) -> (r: OxideBitboard)
        ensures
            forall|i: int| #[trigger]
                r.has(i) == slides_to(self.0, empty.0, i, Direction::South, 7),
    {
        let r = OxideBitboard(occluded_down(self.0, empty.0, 8, ALL_SQUARES));
        proof {
            lemma_doubling_occluded(self.0, empty.0, Direction::South);
            assert(r.0 == doubling_occluded(self.0, empty.0, Direction::South));
        }
        r
    }

    /// The set together with the squares that a slide to the east reaches
    /// from it over the squares of `empty`. The slide stops in front of the
    /// first square that is not empty.
    pub fn east_occluded_fill(self, empty: OxideBitboard) -> (r: OxideBitboard)
        ensures
            forall|i: int| #[trigger]
                r.has(i) == slides_to(self.0, empty.0, i, Direction::East, 7),
    {
        let r = OxideBitboard(occluded_up(self.0, empty.0, 1, NOT_A_FILE));
        proof {
            lemma_doubling_occluded(self.0, empty.0, Direction::East);
            assert(r.0 == doubling_occluded(self.0, empty.0, Direction::East));
        }
        r
    }

    /// The set together with the squares that a slide to the west reaches
    /// from it over the squares of `empty`. The slide stops in front of the
    /// first square that is not empty.
    pub fn west_occluded_fill(self, empty: OxideBitboard) -> (r: OxideBitboard)
        ensures
            forall|i: int| #[trigger]
                r.has(i) == slides_to(self.0, empty.0, i, Direction::West, 7),
    {
        let r = OxideBitboard(occluded_down(self.0, empty.0, 1, NOT_H_FILE));
        proof {
            lemma_doubling_occluded(self.0, empty.0, Direction::West);
            assert(r.0 == doubling_occluded(self.0, empty.0, Direction::West));
        }
        r
    }

    /// The set together with the squares that a slide to the north-east reaches
    /// from it over the squares of `empty`. The slide stops in front of the
    /// first square that is not empty.
    pub fn north_east_occluded_fill(self, empty: OxideBitboard) -> (r: OxideBitboard)
        ensures
            forall|i: int| #[trigger]
                r.has(i) == slides_to(self.0, empty.0, i, Direction::NorthEast, 7),
    {
        let r = OxideBitboard(occluded_up(self.0, empty.0, 9, NOT_A_FILE));
        proof {
            lemma_doubling_occluded(self.0, empty.0, Direction::NorthEast);
            assert(r.0 == doubling_occluded(self.0, empty.0, Direction::NorthEast));
        }
        r
    }

    /// The set together with the squares that a slide to the north-west reaches
    /// from it over the squares of `empty`. The slide stops in front of the
    /// first square that is not empty.
    pub fn north_west_occluded_fill(self, empty: OxideBitboard) -> (r: OxideBitboard)
        ensures
            forall|i: int| #[trigger]
                r.has(i) == slides_to(self.0, empty.0, i, Direction::NorthWest, 7),
    {
        let r = OxideBitboard(occluded_up(self.0, empty.0, 7, NOT_H_FILE));
        proof {
            lemma_doubling_occluded(self.0, empty.0, Direction::NorthWest);
            assert(r.0 == doubling_occluded(self.0, empty.0, Direction::NorthWest));
        }
        r
    }

    /// The set together with the squares that a slide to the south-east reaches
    /// from it over the squares of `empty`. The slide stops in front of the
    /// first square that is not empty.
    pub fn south_east_occluded_fill(self, empty: OxideBitboard) -> (r: OxideBitboard)
        ensures
            forall|i: int| #[trigger]
                r.has(i) == slides_to(self.0, empty.0, i, Direction::SouthEast, 7),
    {
        let r = OxideBitboard(occluded_down(self.0, empty.0, 7, NOT_A_FILE));
        proof {
            lemma_doubling_occluded(self.0, empty.0, Direction::SouthEast);
            assert(r.0 == doubling_occluded(self.0, empty.0, Direction::SouthEast));
        }
        r
    }

    /// The set together with the squares that a slide to the south-west reaches
    /// from it over the squares of `empty`. The slide stops in front of the
    /// first square that is not empty.
    pub fn south_west_occluded_fill(self, empty: OxideBitboard) -> (r: OxideBitboard)
        ensures
            forall|i: int| #[trigger]
                r.has(i) == slides_to(self.0, empty.0, i, Direction::SouthWest, 7),
    {
        let r = OxideBitboard(occluded_down(self.0, empty.0, 9, NOT_H_FILE));
        proof {
            lemma_doubling_occluded(self.0, empty.0, Direction::SouthWest);
            assert(r.0 == doubling_occluded(self.0, empty.0, Direction::SouthWest));
        }
        r
    }

    /// The squares that sliding pieces on the squares of this set attack to
    /// the north: every empty square up to the first blocker, and that
    /// blocker, and nothing beyond it.
    pub fn north_ray_attacks(self, empty: OxideBitboard) -> (r: OxideBitboard)
        ensures
            forall|i: int| #[trigger] r.has(i) == ray_hits(self.0, empty.0, i, Direction::North),
    {
        self.north_occluded_fill(empty).north_shift()
    }

    /// The squares that sliding pieces on the squares of this set attack to
    /// the south: every empty square up to the first blocker, and that
    /// blocker, and nothing beyond it.
    pub fn south_ray_attacks(self, empty: OxideBitboard) -> (r: OxideBitboard)
        ensures
            forall|i: int| #[trigger] r.has(i) == ray_hits(self.0, empty.0, i, Direction::South),
    {
        self.south_occluded_fill(empty).south_shift()
    }

    /// The squares that sliding pieces on the squares of this set attack to
    /// the east: every empty square up to the first blocker, and that
    /// blocker, and nothing beyond it.
    pub fn east_ray_attacks(self, empty: OxideBitboard) -> (r: OxideBitboard)
        ensures
            forall|i: int| #[trigger] r.has(i) == ray_hits(self.0, empty.0, i, Direction::East),
    {
        self.east_occluded_fill(empty).east_shift()
    }

    /// The squares that sliding pieces on the squares of this set attack to
    /// the west: every empty square up to the first blocker, and that
    /// blocker, and nothing beyond it.
    pub fn west_ray_attacks(self, empty: OxideBitboard) -> (r: OxideBitboard)
        ensures
            forall|i: int| #[trigger] r.has(i) == ray_hits(self.0, empty.0, i, Direction::West),
    {
        self.west_occluded_fill(empty).west_shift()
    }

    /// The squares that sliding pieces on the squares of this set attack to
    /// the north-east: every empty square up to the first blocker, and that
    /// blocker, and nothing beyond it.
    pub fn north_east_ray_attacks(self, empty: OxideBitboard) -> (r: OxideBitboard)
        ensures
            forall|i: int| #[trigger] r.has(i) == ray_hits(self.0, empty.0, i, Direction::NorthEast),
    {
        self.north_east_occluded_fill(empty).north_east_shift()
    }

    /// The squares that sliding pieces on the squares of this set attack to
    /// the north-west: every empty square up to the first blocker, and that
    /// blocker, and nothing beyond it.
    pub fn north_west_ray_attacks(self, empty: OxideBitboard) -> (r: OxideBitboard)
        ensures
            forall|i: int| #[trigger] r.has(i) == ray_hits(self.0, empty.0, i, Direction::NorthWest),
    {
        self.north_west_occluded_fill(empty).north_west_shift()
    }

    /// The squares that sliding pieces on the squares of this set attack to
    /// the south-east: every empty square up to the first blocker, and that
    /// blocker, and nothing beyond it.
    pub fn south_east_ray_attacks(self, empty: OxideBitboard) -> (r: OxideBitboard)
        ensures
            forall|i: int| #[trigger] r.has(i) == ray_hits(self.0, empty.0, i, Direction::SouthEast),
    {
        self.south_east_occluded_fill(empty).south_east_shift()
    }

    /// The squares that sliding pieces on the squares of this set attack to
    /// the south-west: every empty square up to the first blocker, and that
    /// blocker, and nothing beyond it.
    pub fn south_west_ray_attacks(self, empty: OxideBitboard) -> (r: OxideBitboard)
        ensures
            forall|i: int| #[trigger] r.has(i) == ray_hits(self.0, empty.0, i, Direction::SouthWest),
    {
        self.south_west_occluded_fill(empty).south_west_shift()
    }

    /// The squares that rooks on the squares of this set attack.
    pub fn cardinal_ray_attacks(self, empty: OxideBitboard) -> (r: OxideBitboard)
        ensures
            forall|i: int| #[trigger] r.has(i) == cardinal_hits(self.0, empty.0, i),
    {
        let north = self.north_ray_attacks(empty);
        let south = self.south_ray_attacks(empty);
        let east = self.east_ray_attacks(empty);
        let west = self.west_ray_attacks(empty);
        proof {
            lemma_bit_or(north.0, south.0);
            lemma_bit_or(north.0 | south.0, east.0);
            lemma_bit_or(north.0 | south.0 | east.0, west.0);
        }
        OxideBitboard(north.0 | south.0 | east.0 | west.0)
    }

    /// The squares that bishops on the squares of this set attack.
    pub fn diagonal_ray_attacks(self, empty: OxideBitboard) -> (r: OxideBitboard)
        ensures
            forall|i: int| #[trigger] r.has(i) == diagonal_hits(self.0, empty.0, i),
    {
        let north_west = self.north_west_ray_attacks(empty);
        let north_east = self.north_east_ray_attacks(empty);
        let south_west = self.south_west_ray_attacks(empty);
        let south_east = self.south_east_ray_attacks(empty);
        proof {
            lemma_bit_or(north_west.0, north_east.0);
            lemma_bit_or(north_west.0 | north_east.0, south_west.0);
            lemma_bit_or(north_west.0 | north_east.0 | south_west.0, south_east.0);
        }
        OxideBitboard(north_west.0 | north_east.0 | south_west.0 | south_east.0)
    }

    /// Whether the set holds no square.
    pub fn is_empty(self) -> (r: bool)
        ensures
            r == (self.0 == 0),
            r == (forall|i: int| 0 <= i < 64 ==> !self.has(i)),
    {
        proof {
            crate::bits::lemma_bit_zero(self.0);
        }
        self.0 == 0
    }

    /// Whether the set holds the given square.
    pub fn contains(self, square: OxideSquare) -> (r: bool)
        ensures
            r == self.has(square.index()),
    {
        let mask = square.to_mask();
        proof {
            lemma_bit_and(self.0, mask.0);
            crate::bits::lemma_bit_zero(self.0 & mask.0);
            assert(bit(self.0 & mask.0, square.index()) == bit(self.0, square.index()));
        }
        self.0 & mask.0 != 0
    }

    /// Takes the lowest square out of the set and returns it; returns
    /// nothing when the set is empty. Repeated calls give the squares in
    /// increasing order.
    pub fn next(&mut self) -> (r: Option<OxideSquare>)
        ensures
            old(self).0 == 0 ==> r.is_none() && final(self).0 == 0,
            old(self).0 != 0 ==> r.is_some() && r.unwrap().index() == lowest_square(old(self).0)
                && old(self).has(r.unwrap().index()) && (forall|i: int|
                0 <= i < r.unwrap().index() ==> !old(self).has(i)) && (forall|i: int| #[trigger]
                final(self).has(i) == (old(self).has(i) && i != r.unwrap().index())),
    {
        let mut word = self.0;
        let square = pop_square(&mut word);
        self.0 = word;
        square
    }

    /// How many squares the set holds.
    pub fn count(self) -> (r: usize)
        ensures
            r == self.size(),
            r <= 64,
    {
        let mut total: usize = 0;
        let mut i: u64 = 0;
        while i < 64
            invariant
                i <= 64,
                total == count_below(self.0, i as nat),
                total <= i,
            decreases 64 - i,
        {
            if (self.0 >> i) & 1 == 1 {
                total = total + 1;
            }
            i = i + 1;
        }
        total
    }

    /// The bounds on how many squares `next` will still give: both are the
    /// number of squares in the set.
    pub fn size_hint(&self) -> (r: (usize, Option<usize>))
        ensures
            r.0 == self.size(),
            r.1 == Some(r.0),
    {
        let ones = self.count();
        (ones, Some(ones))
    }

    /// The squares of the set in increasing order.
    pub fn squares(self) -> (r: Vec<OxideSquare>)
        ensures
            forall|k: int| 0 <= k < r.len() ==> self.has(#[trigger] r[k].index()),
            forall|i: int| self.has(i) ==> exists|k: int| 0 <= k < r.len() && #[trigger] r[k].index() == i,
            forall|j: int, k: int| 0 <= j < k < r.len() ==> r[j].index() < r[k].index(),
            r.len() <= 64,
    {
        let mut rest = self;
        let mut out: Vec<OxideSquare> = Vec::new();
        proof {
            lemma_count_bound(self.0, 64);
        }
        while rest.0 != 0
            invariant
                forall|k: int| 0 <= k < out.len() ==> self.has(#[trigger] out[k].index()),
                forall|k: int| 0 <= k < out.len() ==> !rest.has(#[trigger] out[k].index()),
                forall|i: int| rest.has(i) ==> self.has(i),
                forall|i: int| self.has(i) && !rest.has(i) ==> exists|k: int|
                    0 <= k < out.len() && #[trigger] out[k].index() == i,
                forall|j: int, k: int| 0 <= j < k < out.len() ==> out[j].index() < out[k].index(),
                forall|k: int, i: int| 0 <= k < out.len() && #[trigger] rest.has(i) ==> #[trigger] out[k].index() < i,
                out.len() + count_below(rest.0, 64) <= 64,
            decreases count_below(rest.0, 64),
        {
            let ghost before = rest;
            let ghost done = out@;
            match rest.next() {
                Some(square) => {
                    proof {
                        lemma_count_without(before.0, rest.0, square.index(), 64);
                    }
                    out.push(square);
                    assert forall|i: int| self.has(i) && !rest.has(i) implies exists|k: int|
                        0 <= k < out.len() && #[trigger] out[k].index() == i by {
                        if i == square.index() {
                            assert(out[out.len() - 1].index() == i);
                        } else {
                            let k = choose|k: int| 0 <= k < done.len() && #[trigger] done[k].index() == i;
                            assert(out[k].index() == i);
                        }
                    }
                },
                None => {
                },
            }
        }
        proof {
            lemma_bit_masks();
        }
        out
    }

    /// The set of the given squares.
    pub fn from_squares(squares: &[OxideSquare]) -> (r: OxideBitboard)
        ensures
            forall|i: int| #[trigger]
                r.has(i) == (exists|k: int| 0 <= k < squares@.len() && #[trigger] squares@[k].index() == i),
    {
        let mut word = 0u64;
        let mut k: usize = 0;
        proof {
            lemma_bit_masks();
        }
        while k < squares.len()
            invariant
                k <= squares@.len(),
                forall|i: int| #[trigger]
                    bit(word, i) == (exists|j: int| 0 <= j < k && #[trigger] squares@[j].index() == i),
            decreases squares@.len() - k,
        {
            let mask = squares[k].to_mask();
            let ghost before = word;
            proof {
                lemma_bit_or(word, mask.0);
            }
            word = word | mask.0;
            assert forall|i: int| #[trigger]
                bit(word, i) == (exists|j: int| 0 <= j < k + 1 && #[trigger] squares@[j].index() == i) by {
                if bit(before, i) {
                    let j = choose|j: int| 0 <= j < k && #[trigger] squares@[j].index() == i;
                    assert(squares@[j].index() == i);
                }
                if i == squares@[k as int].index() {
                    assert(squares@[k as int].index() == i);
                }
            }
            k = k + 1;
        }
        OxideBitboard(word)
    }
}

/// A set holds at most `n` of the squares below `n`.
pub proof fn lemma_count_bound(x: u64, n: nat)
    ensures
        count_below(x, n) <= n,
    decreases n,
{
    if n > 0 {
        lemma_count_bound(x, (n - 1) as nat);
    }
}

/// Taking one square out of a set lowers its count by one.
pub proof fn lemma_count_without(before: u64, after: u64, t: int, n: nat)
    requires
        bit(before, t),
        forall|i: int| #[trigger] bit(after, i) == (bit(before, i) && i != t),
        n <= 64,
    ensures
        count_below(after, n) + (if t < n {
            1nat
        } else {
            0nat
        }) == count_below(before, n),
    decreases n,
{
    if n > 0 {
        lemma_count_without(before, after, t, (n - 1) as nat);
    }
}

impl core::ops::BitOr for OxideBitboard {
    type Output = OxideBitboard;

    /// The union of two sets.
    fn bitor(self, rhs: OxideBitboard) -> (r: OxideBitboard) {
        OxideBitboard(self.0 | rhs.0)
    }
}

impl vstd::std_specs::ops::BitOrSpecImpl for OxideBitboard {
    open spec fn obeys_bitor_spec() -> bool {
        true
    }

    open spec fn bitor_req(self, rhs: OxideBitboard) -> bool {
        true
    }

    open spec fn bitor_spec(self, rhs: OxideBitboard) -> OxideBitboard {
        OxideBitboard(self.0 | rhs.0)
    }
}

impl core::ops::BitAnd for OxideBitboard {
    type Output = OxideBitboard;

    /// The intersection of two sets.
    fn bitand(self, rhs: OxideBitboard) -> (r: OxideBitboard) {
        OxideBitboard(self.0 & rhs.0)
    }
}

impl vstd::std_specs::ops::BitAndSpecImpl for OxideBitboard {
    open spec fn obeys_bitand_spec() -> bool {
        true
    }

    open spec fn bitand_req(self, rhs: OxideBitboard) -> bool {
        true
    }

    open spec fn bitand_spec(self, rhs: OxideBitboard) -> OxideBitboard {
        OxideBitboard(self.0 & rhs.0)
    }
}

impl core::ops::BitXor for OxideBitboard {
    type Output = OxideBitboard;

    /// The symmetric difference of two sets.
    fn bitxor(self, rhs: OxideBitboard) -> (r: OxideBitboard) {
        OxideBitboard(self.0 ^ rhs.0)
    }
}

impl vstd::std_specs::ops::BitXorSpecImpl for OxideBitboard {
    open spec fn obeys_bitxor_spec() -> bool {
        true
    }

    open spec fn bitxor_req(self, rhs: OxideBitboard) -> bool {
        true
    }

    open spec fn bitxor_spec(self, rhs: OxideBitboard) -> OxideBitboard {
        OxideBitboard(self.0 ^ rhs.0)
    }
}

impl core::ops::Not for OxideBitboard {
    type Output = OxideBitboard;

    /// The squares that the set does not hold.
    fn not(self) -> (r: OxideBitboard) {
        OxideBitboard(!self.0)
    }
}

impl vstd::std_specs::ops::NotSpecImpl for OxideBitboard {
    open spec fn obeys_not_spec() -> bool {
        true
    }

    open spec fn not_req(self) -> bool {
        true
    }

    open spec fn not_spec(self) -> OxideBitboard {
        OxideBitboard(!self.0)
    }
}

impl core::ops::Shl<u8> for OxideBitboard {
    type Output = OxideBitboard;

    /// Every square of the set moved up by `rhs` numbers; squares that
    /// would pass the last are dropped. The shift must be below 64.
    fn shl(self, rhs: u8) -> (r: OxideBitboard) {
        OxideBitboard(self.0 << (rhs as u64))
    }
}

impl vstd::std_specs::ops::ShlSpecImpl<u8> for OxideBitboard {
    open spec fn obeys_shl_spec() -> bool {
        true
    }

    open spec fn shl_req(self, rhs: u8) -> bool {
        rhs < 64
    }

    open spec fn shl_spec(self, rhs: u8) -> OxideBitboard {
        OxideBitboard(self.0 << (rhs as u64))
    }
}

impl core::ops::Shr<u8> for OxideBitboard {
    type Output = OxideBitboard;

    /// Every square of the set moved down by `rhs` numbers; squares that
    /// would pass the first are dropped. The shift must be below 64.
    fn shr(self, rhs: u8) -> (r: OxideBitboard) {
        OxideBitboard(self.0 >> (rhs as u64))
    }
}

impl vstd::std_specs::ops::ShrSpecImpl<u8> for OxideBitboard {
    open spec fn obeys_shr_spec() -> bool {
        true
    }

    open spec fn shr_req(self, rhs: u8) -> bool {
        rhs < 64
    }

    open spec fn shr_spec(self, rhs: u8) -> OxideBitboard {
        OxideBitboard(self.0 >> (rhs as u64))
    }
}

} // verus!
