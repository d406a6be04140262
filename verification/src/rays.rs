//! Steps and slides along the eight compass directions of the board.
//!
//! A *step* moves a set of squares one square in a direction and drops what
//! would leave the board. A *slide* starts on a set of generator squares and
//! keeps stepping while the squares it lands on are empty. Both are defined
//! here on squares; the doubling computation that the bitboards use is proved
//! equal to seven single steps.
use vstd::prelude::*;
use crate::bits::{
    ALL_SQUARES, NOT_A_FILE, NOT_H_FILE, bit, file_of, lemma_bit_and, lemma_bit_masks, lemma_bit_or,
    lemma_bit_shl, lemma_bit_shr, on_board, rank_of,
};

verus! {

/// The eight directions in which a piece can slide.
#[derive(Clone, Copy, Debug, PartialEq, Eq, Structural)]
pub enum Direction {
    North,
    South,
    East,
    West,
    NorthEast,
    NorthWest,
    SouthEast,
    SouthWest,
}

impl Direction {
    /// Change of file made by one step.
    pub open spec fn dx(self) -> int {
        match self {
            Direction::North | Direction::South => 0,
            Direction::East | Direction::NorthEast | Direction::SouthEast => 1,
            Direction::West | Direction::NorthWest | Direction::SouthWest => -1,
        }
    }

    /// Change of rank made by one step.
    pub open spec fn dy(self) -> int {
        match self {
            Direction::East | Direction::West => 0,
            Direction::North | Direction::NorthEast | Direction::NorthWest => 1,
            Direction::South | Direction::SouthEast | Direction::SouthWest => -1,
        }
    }

    /// Change of square index made by one step.
    pub open spec fn delta(self) -> int {
        8 * self.dy() + self.dx()
    }
}

/// Whether a step in direction `dir` can end on square `i`, that is whether
/// the square one step behind `i` is on the board.
pub open spec fn has_step_from(i: int, dir: Direction) -> bool {
    on_board(i) && 0 <= file_of(i) - dir.dx() < 8 && 0 <= rank_of(i) - dir.dy() < 8
}

/// The square from which one step in direction `dir` ends on `i`.
pub open spec fn step_from(i: int, dir: Direction) -> int {
    i - dir.delta()
}

/// The set `x` moved one step in direction `dir`.
pub open spec fn shifted(x: u64, dir: Direction) -> u64 {
    match dir {
        Direction::North => x << 8,
        Direction::South => x >> 8,
        Direction::East => (x << 1) & NOT_A_FILE,
        Direction::West => (x >> 1) & NOT_H_FILE,
        Direction::NorthEast => (x << 9) & NOT_A_FILE,
        Direction::NorthWest => (x << 7) & NOT_H_FILE,
        Direction::SouthEast => (x >> 7) & NOT_A_FILE,
        Direction::SouthWest => (x >> 9) & NOT_H_FILE,
    }
}

/// Whether a slide in direction `dir` that starts on the squares of `gen` and
/// passes only over squares of `empty` reaches square `i` within `n` steps.
/// Seven steps cross the whole board.
pub open spec fn slides_to(gen: u64, empty: u64, i: int, dir: Direction, n: nat) -> bool
    decreases n,
{
    bit(gen, i) || (n > 0 && bit(empty, i) && has_step_from(i, dir) && slides_to(
        gen,
        empty,
        step_from(i, dir),
        dir,
        (n - 1) as nat,
    ))
}

/// The squares that a slide reaches within `n` steps, as a word.
pub open spec fn flood(gen: u64, empty: u64, dir: Direction, n: nat) -> u64
    decreases n,
{
    if n == 0 {
        gen
    } else {
        gen | (shifted(flood(gen, empty, dir, (n - 1) as nat), dir) & empty)
    }
}

/// A step moves each square of the set by the direction's delta and keeps it
/// only where source and target lie on one line of the board.
pub proof fn lemma_shifted_bits(x: u64, dir: Direction)
    ensures
        forall|i: int| #[trigger]
            bit(shifted(x, dir), i) == (has_step_from(i, dir) && bit(x, step_from(i, dir))),
{
    lemma_bit_masks();
    match dir {
        Direction::North => {
            lemma_bit_shl(x, 8);
        },
        Direction::South => {
            lemma_bit_shr(x, 8);
        },
        Direction::East => {
            lemma_bit_shl(x, 1);
            lemma_bit_and(x << 1, NOT_A_FILE);
        },
        Direction::West => {
            lemma_bit_shr(x, 1);
            lemma_bit_and(x >> 1, NOT_H_FILE);
        },
        Direction::NorthEast => {
            lemma_bit_shl(x, 9);
            lemma_bit_and(x << 9, NOT_A_FILE);
        },
        Direction::NorthWest => {
            lemma_bit_shl(x, 7);
            lemma_bit_and(x << 7, NOT_H_FILE);
        },
        Direction::SouthEast => {
            lemma_bit_shr(x, 7);
            lemma_bit_and(x >> 7, NOT_A_FILE);
        },
        Direction::SouthWest => {
            lemma_bit_shr(x, 9);
            lemma_bit_and(x >> 9, NOT_H_FILE);
        },
    }
}

/// The word `flood` holds exactly the squares that `slides_to` names.
pub proof fn lemma_flood_bits(gen: u64, empty: u64, dir: Direction, n: nat)
    ensures
        forall|i: int| #[trigger] bit(flood(gen, empty, dir, n), i) == slides_to(gen, empty, i, dir, n),
    decreases n,
{
    if n > 0 {
        let prev = flood(gen, empty, dir, (n - 1) as nat);
        lemma_flood_bits(gen, empty, dir, (n - 1) as nat);
        lemma_shifted_bits(prev, dir);
        lemma_bit_and(shifted(prev, dir), empty);
        lemma_bit_or(gen, shifted(prev, dir) & empty);
    }
}

/// One step towards higher square indices: a left shift by `c`, masked by
/// `col` unless `col` is the full board.
pub open spec fn step_up(x: u64, c: u64, col: u64) -> u64 {
    if col == ALL_SQUARES {
        x << c
    } else {
        (x << c) & col
    }
}

/// One step towards lower square indices.
pub open spec fn step_down(x: u64, c: u64, col: u64) -> u64 {
    if col == ALL_SQUARES {
        x >> c
    } else {
        (x >> c) & col
    }
}

/// The doubling form of an occluded fill towards higher indices.
pub open spec fn doubling_occluded_up(gen: u64, empty: u64, c: u64, col: u64) -> u64 {
    let e0 = empty & col;
    let m1 = gen | (e0 & (gen << c));
    let e1 = e0 & (e0 << c);
    let m2 = m1 | (e1 & (m1 << ((2 * c) as u64)));
    let e2 = e1 & (e1 << ((2 * c) as u64));
    m2 | (e2 & (m2 << ((4 * c) as u64)))
}

/// The doubling form of an occluded fill towards lower indices.
pub open spec fn doubling_occluded_down(gen: u64, empty: u64, c: u64, col: u64) -> u64 {
    let e0 = empty & col;
    let m1 = gen | (e0 & (gen >> c));
    let e1 = e0 & (e0 >> c);
    let m2 = m1 | (e1 & (m1 >> ((2 * c) as u64)));
    let e2 = e1 & (e1 >> ((2 * c) as u64));
    m2 | (e2 & (m2 >> ((4 * c) as u64)))
}

/// The doubling form of a fill without blockers towards higher indices.
pub open spec fn doubling_fill_up(gen: u64, c: u64, col: u64) -> u64 {
    let k1 = col & (col << c);
    let k2 = k1 & (k1 << ((2 * c) as u64));
    let m1 = gen | (col & (gen << c));
    let m2 = m1 | (k1 & (m1 << ((2 * c) as u64)));
    m2 | (k2 & (m2 << ((4 * c) as u64)))
}

/// The doubling form of a fill without blockers towards lower indices.
pub open spec fn doubling_fill_down(gen: u64, c: u64, col: u64) -> u64 {
    let k1 = col & (col >> c);
    let k2 = k1 & (k1 >> ((2 * c) as u64));
    let m1 = gen | (col & (gen >> c));
    let m2 = m1 | (k1 & (m1 >> ((2 * c) as u64)));
    m2 | (k2 & (m2 >> ((4 * c) as u64)))
}

/// Seven single steps towards higher indices, each taken only onto `empty`.
pub open spec fn seven_steps_up(gen: u64, empty: u64, c: u64, col: u64) -> u64 {
    let f1 = gen | (step_up(gen, c, col) & empty);
    let f2 = gen | (step_up(f1, c, col) & empty);
    let f3 = gen | (step_up(f2, c, col) & empty);
    let f4 = gen | (step_up(f3, c, col) & empty);
    let f5 = gen | (step_up(f4, c, col) & empty);
    let f6 = gen | (step_up(f5, c, col) & empty);
    gen | (step_up(f6, c, col) & empty)
}

/// Seven single steps towards lower indices, each taken only onto `empty`.
pub open spec fn seven_steps_down(gen: u64, empty: u64, c: u64, col: u64) -> u64 {
    let f1 = gen | (step_down(gen, c, col) & empty);
    let f2 = gen | (step_down(f1, c, col) & empty);
    let f3 = gen | (step_down(f2, c, col) & empty);
    let f4 = gen | (step_down(f3, c, col) & empty);
    let f5 = gen | (step_down(f4, c, col) & empty);
    let f6 = gen | (step_down(f5, c, col) & empty);
    gen | (step_down(f6, c, col) & empty)
}

impl Direction {
    /// Whether a step in this direction raises the square index.
    pub open spec fn is_up(self) -> bool {
        self.delta() > 0
    }

    /// The distance in square indices of one step.
    pub open spec fn stride(self) -> u64 {
        match self {
            Direction::North | Direction::South => 8,
            Direction::East | Direction::West => 1,
            Direction::NorthEast | Direction::SouthWest => 9,
            Direction::NorthWest | Direction::SouthEast => 7,
        }
    }

    /// The squares on which a step in this direction can end.
    pub open spec fn column(self) -> u64 {
        match self {
            Direction::North | Direction::South => ALL_SQUARES,
            Direction::East | Direction::NorthEast | Direction::SouthEast => NOT_A_FILE,
            Direction::West | Direction::NorthWest | Direction::SouthWest => NOT_H_FILE,
        }
    }
}

proof fn bv_doubling_north(gen: u64, empty: u64)
    by (bit_vector)
    ensures
        doubling_occluded_up(gen, empty, 8, ALL_SQUARES) == seven_steps_up(gen, empty, 8, ALL_SQUARES),
        doubling_fill_up(gen, 8, ALL_SQUARES) == seven_steps_up(gen, ALL_SQUARES, 8, ALL_SQUARES),
{
}

proof fn bv_doubling_east(gen: u64, empty: u64)
    by (bit_vector)
    ensures
        doubling_occluded_up(gen, empty, 1, NOT_A_FILE) == seven_steps_up(gen, empty, 1, NOT_A_FILE),
        doubling_fill_up(gen, 1, NOT_A_FILE) == seven_steps_up(gen, ALL_SQUARES, 1, NOT_A_FILE),
{
}

proof fn bv_doubling_north_east(gen: u64, empty: u64)
    by (bit_vector)
    ensures
        doubling_occluded_up(gen, empty, 9, NOT_A_FILE) == seven_steps_up(gen, empty, 9, NOT_A_FILE),
        doubling_fill_up(gen, 9, NOT_A_FILE) == seven_steps_up(gen, ALL_SQUARES, 9, NOT_A_FILE),
{
}

proof fn bv_doubling_north_west(gen: u64, empty: u64)
    by (bit_vector)
    ensures
        doubling_occluded_up(gen, empty, 7, NOT_H_FILE) == seven_steps_up(gen, empty, 7, NOT_H_FILE),
        doubling_fill_up(gen, 7, NOT_H_FILE) == seven_steps_up(gen, ALL_SQUARES, 7, NOT_H_FILE),
{
}

proof fn bv_doubling_south(gen: u64, empty: u64)
    by (bit_vector)
    ensures
        doubling_occluded_down(gen, empty, 8, ALL_SQUARES) == seven_steps_down(gen, empty, 8, ALL_SQUARES),
        doubling_fill_down(gen, 8, ALL_SQUARES) == seven_steps_down(gen, ALL_SQUARES, 8, ALL_SQUARES),
{
}

proof fn bv_doubling_west(gen: u64, empty: u64)
    by (bit_vector)
    ensures
        doubling_occluded_down(gen, empty, 1, NOT_H_FILE) == seven_steps_down(gen, empty, 1, NOT_H_FILE),
        doubling_fill_down(gen, 1, NOT_H_FILE) == seven_steps_down(gen, ALL_SQUARES, 1, NOT_H_FILE),
{
}

proof fn bv_doubling_south_east(gen: u64, empty: u64)
    by (bit_vector)
    ensures
        doubling_occluded_down(gen, empty, 7, NOT_A_FILE) == seven_steps_down(gen, empty, 7, NOT_A_FILE),
        doubling_fill_down(gen, 7, NOT_A_FILE) == seven_steps_down(gen, ALL_SQUARES, 7, NOT_A_FILE),
{
}

proof fn bv_doubling_south_west(gen: u64, empty: u64)
    by (bit_vector)
    ensures
        doubling_occluded_down(gen, empty, 9, NOT_H_FILE) == seven_steps_down(gen, empty, 9, NOT_H_FILE),
        doubling_fill_down(gen, 9, NOT_H_FILE) == seven_steps_down(gen, ALL_SQUARES, 9, NOT_H_FILE),
{
}

proof fn lemma_doubling_is_seven_steps(gen: u64, empty: u64, dir: Direction)
    ensures
        dir.is_up() ==> doubling_occluded_up(gen, empty, dir.stride(), dir.column())
            == seven_steps_up(gen, empty, dir.stride(), dir.column()),
        dir.is_up() ==> doubling_fill_up(gen, dir.stride(), dir.column()) == seven_steps_up(
            gen,
            ALL_SQUARES,
            dir.stride(),
            dir.column(),
        ),
        !dir.is_up() ==> doubling_occluded_down(gen, empty, dir.stride(), dir.column())
            == seven_steps_down(gen, empty, dir.stride(), dir.column()),
        !dir.is_up() ==> doubling_fill_down(gen, dir.stride(), dir.column()) == seven_steps_down(
            gen,
            ALL_SQUARES,
            dir.stride(),
            dir.column(),
        ),
{
    match dir {
        Direction::North => bv_doubling_north(gen, empty),
        Direction::South => bv_doubling_south(gen, empty),
        Direction::East => bv_doubling_east(gen, empty),
        Direction::West => bv_doubling_west(gen, empty),
        Direction::NorthEast => bv_doubling_north_east(gen, empty),
        Direction::NorthWest => bv_doubling_north_west(gen, empty),
        Direction::SouthEast => bv_doubling_south_east(gen, empty),
        Direction::SouthWest => bv_doubling_south_west(gen, empty),
    }
}

/// The doubling form of the occluded fill in direction `dir`.
pub open spec fn doubling_occluded(gen: u64, empty: u64, dir: Direction) -> u64 {
    if dir.is_up() {
        doubling_occluded_up(gen, empty, dir.stride(), dir.column())
    } else {
        doubling_occluded_down(gen, empty, dir.stride(), dir.column())
    }
}

/// The doubling form of the fill without blockers in direction `dir`.
pub open spec fn doubling_fill(gen: u64, dir: Direction) -> u64 {
    if dir.is_up() {
        doubling_fill_up(gen, dir.stride(), dir.column())
    } else {
        doubling_fill_down(gen, dir.stride(), dir.column())
    }
}

proof fn lemma_seven_steps(gen: u64, empty: u64, dir: Direction)
    ensures
        dir.is_up() ==> seven_steps_up(gen, empty, dir.stride(), dir.column()) == flood(
            gen,
            empty,
            dir,
            7,
        ),
        !dir.is_up() ==> seven_steps_down(gen, empty, dir.stride(), dir.column()) == flood(
            gen,
            empty,
            dir,
            7,
        ),
{
    reveal_with_fuel(flood, 8);
}

/// The doubling computation reaches exactly the squares of a slide of seven
/// steps: each generator square, and each empty square from which the slide
/// can be traced back over empty squares to a generator.
pub proof fn lemma_doubling_occluded(gen: u64, empty: u64, dir: Direction)
    ensures
        forall|i: int| #[trigger]
            bit(doubling_occluded(gen, empty, dir), i) == slides_to(gen, empty, i, dir, 7),
{
    lemma_seven_steps(gen, empty, dir);
    lemma_doubling_is_seven_steps(gen, empty, dir);
    lemma_flood_bits(gen, empty, dir, 7);
}

/// The doubling fill without blockers is the slide over a board on which
/// every square is empty.
pub proof fn lemma_doubling_fill(gen: u64, dir: Direction)
    ensures
        forall|i: int| #[trigger]
            bit(doubling_fill(gen, dir), i) == slides_to(gen, ALL_SQUARES, i, dir, 7),
{
    lemma_seven_steps(gen, ALL_SQUARES, dir);
    lemma_doubling_is_seven_steps(gen, 0, dir);
    lemma_flood_bits(gen, ALL_SQUARES, dir, 7);
}

} // verus!
