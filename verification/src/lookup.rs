//! Sliding attacks by table: for each square the attacks of a bishop and of
//! a rook are kept for every way of filling the squares that can block
//! them, and are found by packing those squares of the occupancy into an
//! index.
use vstd::prelude::*;
use crate::attacks::{bishop_attacks, rook_attacks};
use crate::bitboard::{
    OxideBitboard, blsr, cardinal_hits, count_below, diagonal_hits, lemma_count_bound,
    lemma_count_without, ray_hits,
};
use crate::bits::{
    ALL_SQUARES, bit, lemma_bit_and, lemma_bit_ext, lemma_bit_masks, lemma_bit_not, lemma_bit_or,
    lemma_bit_shr, lemma_bit_single, lemma_lowest_bit, lemma_word_where, on_board, word_where,
};
use crate::line::{lemma_slide_steps, lemma_step_coordinates, lies_towards};
use crate::rays::{Direction, has_step_from, slides_to, step_from};
use crate::square::OxideSquare;

verus! {

/// The word in which the low bits of `value` are spread over the squares of
/// `mask`: the square of `mask` that has `k` squares of `mask` below it
/// holds bit `k` of `value`, and no other square holds anything.
pub open spec fn deposited(value: u64, mask: u64) -> u64 {
    word_where(|i: int| bit(mask, i) && bit(value, count_below(mask, i as nat) as int), 64)
}

/// Whether bit `k` of the word packed from `value` is set: the square of
/// `mask` that has `k` squares of `mask` below it is a square of `value`.
pub open spec fn extracted_bit(value: u64, mask: u64, k: int) -> bool {
    exists|i: int| #[trigger] bit(mask, i) && count_below(mask, i as nat) == k && bit(value, i)
}

/// The word in which the squares of `value` that are squares of `mask` are
/// packed into the low bits, in the order of the squares.
pub open spec fn extracted(value: u64, mask: u64) -> u64 {
    word_where(|k: int| extracted_bit(value, mask, k), 64)
}

/// Squares that a set does not hold do not count.
pub proof fn lemma_count_skip(x: u64, a: nat, b: nat)
    requires
        a <= b,
        forall|i: int| a <= i < b ==> !bit(x, i),
    ensures
        count_below(x, b) == count_below(x, a),
    decreases b - a,
{
    if a < b {
        lemma_count_skip(x, a, (b - 1) as nat);
    }
}

/// A square of a set has fewer squares of the set below it than any higher
/// square has.
pub proof fn lemma_count_grows(x: u64, a: nat, b: nat)
    requires
        a < b,
        bit(x, a as int),
    ensures
        count_below(x, a) < count_below(x, b),
        count_below(x, a) <= a,
    decreases b - a,
{
    lemma_count_bound(x, a);
    if a + 1 < b {
        lemma_count_grows(x, a, (b - 1) as nat);
    }
}

/// Spreads the low bits of `value` over the squares of `mask`.
pub fn pdep(value: u64, mask: u64) -> (r: u64)
    ensures
        r == deposited(value, mask),
        forall|i: int| #[trigger] bit(r, i) == (bit(mask, i) && bit(value, count_below(mask, i as nat) as int)),
{
    let mut rest = mask;
    let mut res = 0u64;
    let mut taken: u64 = 0;
    let ghost mut done: nat = 0;
    proof {
        lemma_bit_masks();
    }
    while rest != 0
        invariant
            done <= 64,
            taken == count_below(mask, done),
            taken <= done,
            forall|i: int| bit(rest, i) ==> bit(mask, i) && i >= done,
            forall|i: int| bit(mask, i) && i >= done ==> bit(rest, i),
            forall|i: int| #[trigger]
                bit(res, i) == (i < done && bit(mask, i) && bit(value, count_below(mask, i as nat) as int)),
        decreases count_below(rest, 64),
    {
        let ghost before = rest;
        proof {
            lemma_lowest_bit(rest);
        }
        let square = rest.trailing_zeros() as u64;
        rest = blsr(rest);
        proof {
            lemma_count_without(before, rest, square as int, 64);
            lemma_count_skip(mask, done, square as nat);
            lemma_bit_single(square);
            lemma_bit_or(res, 1u64 << square);
            lemma_bit_shr(value, taken);
        }
        if (value >> taken) & 1 == 1 {
            res = res | (1u64 << square);
        }
        proof {
            assert(bit(value, taken as int) == ((value >> taken) & 1 == 1)) by {
                assert(bit(value >> taken, 0) == bit(value, taken as int));
            }
            done = (square + 1) as nat;
        }
        taken = taken + 1;
    }
    proof {
        lemma_word_where(|i: int| bit(mask, i) && bit(value, count_below(mask, i as nat) as int), 64);
        lemma_bit_ext(res, deposited(value, mask));
    }
    res
}

/// Packs the squares of `value` that are squares of `mask` into the low
/// bits, in the order of the squares.
pub fn pext(value: u64, mask: u64) -> (r: u64)
    ensures
        r == extracted(value, mask),
        forall|k: int| #[trigger] bit(r, k) == (on_board(k) && extracted_bit(value, mask, k)),
{
    let mut rest = mask;
    let mut res = 0u64;
    let mut taken: u64 = 0;
    let ghost mut done: nat = 0;
    proof {
        lemma_bit_masks();
    }
    while rest != 0
        invariant
            done <= 64,
            taken == count_below(mask, done),
            taken <= done,
            forall|i: int| bit(rest, i) ==> bit(mask, i) && i >= done,
            forall|i: int| bit(mask, i) && i >= done ==> bit(rest, i),
            forall|k: int| #[trigger]
                bit(res, k) == (exists|i: int| #[trigger]
                    bit(mask, i) && i < done && count_below(mask, i as nat) == k && bit(value, i)),
        decreases count_below(rest, 64),
    {
        let ghost before = rest;
        let ghost res_before = res;
        let ghost done_before = done;
        proof {
            lemma_lowest_bit(rest);
        }
        let square = rest.trailing_zeros() as u64;
        rest = blsr(rest);
        proof {
            lemma_count_without(before, rest, square as int, 64);
            lemma_count_skip(mask, done, square as nat);
            lemma_bit_single(taken);
            lemma_bit_or(res, 1u64 << taken);
            lemma_bit_shr(value, square);
            assert(bit(value, square as int) == ((value >> square) & 1 == 1)) by {
                assert(bit(value >> square, 0) == bit(value, square as int));
            }
        }
        if (value >> square) & 1 == 1 {
            res = res | (1u64 << taken);
        }
        proof {
            done = (square + 1) as nat;
            assert forall|k: int| #[trigger]
                bit(res, k) == (exists|i: int| #[trigger]
                    bit(mask, i) && i < done && count_below(mask, i as nat) == k && bit(value, i)) by {
                if bit(res_before, k) {
                    let i = choose|i: int| #[trigger]
                        bit(mask, i) && i < done_before && count_below(mask, i as nat) == k && bit(value, i);
                    assert(bit(mask, i) && i < done && count_below(mask, i as nat) == k && bit(value, i));
                }
                if k == taken && bit(value, square as int) {
                    assert(bit(mask, square as int) && square < done && count_below(mask, square as nat) == k
                        && bit(value, square as int));
                }
                if exists|i: int| #[trigger]
                    bit(mask, i) && i < done && count_below(mask, i as nat) == k && bit(value, i) {
                    let i = choose|i: int| #[trigger]
                        bit(mask, i) && i < done && count_below(mask, i as nat) == k && bit(value, i);
                    if i < done_before {
                        assert(bit(mask, i) && i < done_before && count_below(mask, i as nat) == k && bit(
                            value,
                            i,
                        ));
                    } else {
                        assert(i == square);
                    }
                }
            }
        }
        taken = taken + 1;
    }
    proof {
        lemma_word_where(|k: int| extracted_bit(value, mask, k), 64);
        assert forall|k: int| #[trigger] bit(res, k) == (on_board(k) && extracted_bit(value, mask, k)) by {
            if bit(res, k) {
                let i = choose|i: int| #[trigger]
                    bit(mask, i) && i < done && count_below(mask, i as nat) == k && bit(value, i);
                assert(bit(mask, i) && count_below(mask, i as nat) == k && bit(value, i));
            }
            if on_board(k) && extracted_bit(value, mask, k) {
                let i = choose|i: int| #[trigger] bit(mask, i) && count_below(mask, i as nat) == k && bit(value, i);
                assert(bit(mask, i) && i < done && count_below(mask, i as nat) == k && bit(value, i));
            }
        }
        lemma_bit_ext(res, extracted(value, mask));
    }
    res
}

/// Packing the squares of a mask and spreading them again gives the squares
/// of the value that are squares of the mask.
pub proof fn lemma_deposit_extracted(value: u64, mask: u64)
    ensures
        deposited(extracted(value, mask), mask) == value & mask,
{
    let packed = extracted(value, mask);
    lemma_word_where(|k: int| extracted_bit(value, mask, k), 64);
    lemma_word_where(|i: int| bit(mask, i) && bit(packed, count_below(mask, i as nat) as int), 64);
    lemma_bit_and(value, mask);
    assert forall|i: int| 0 <= i < 64 implies bit(deposited(packed, mask), i) == bit(value & mask, i) by {
        if bit(mask, i) {
            let k = count_below(mask, i as nat) as int;
            lemma_count_bound(mask, i as nat);
            if bit(value, i) {
                assert(bit(mask, i) && count_below(mask, i as nat) == k && bit(value, i));
            }
            if extracted_bit(value, mask, k) {
                let j = choose|j: int| #[trigger] bit(mask, j) && count_below(mask, j as nat) == k && bit(value, j);
                if j < i {
                    lemma_count_grows(mask, j as nat, i as nat);
                } else if i < j {
                    lemma_count_grows(mask, i as nat, j as nat);
                }
            }
        }
    }
    lemma_bit_ext(deposited(packed, mask), value & mask);
}

/// Whether a piece on square `j` can block a slide from square `a` in
/// direction `dir` before the slide ends: `j` lies on the ray beyond `a`
/// and is not the last square of the ray.
pub open spec fn blocks_ray(a: int, j: int, dir: Direction) -> bool {
    on_board(a) && lies_towards(a, j, dir) && j != a && has_step_from(j + dir.delta(), dir)
}

/// Whether a piece on `j` can block a rook on `a`.
pub open spec fn blocks_rook(a: int, j: int) -> bool {
    blocks_ray(a, j, Direction::North) || blocks_ray(a, j, Direction::South) || blocks_ray(
        a,
        j,
        Direction::East,
    ) || blocks_ray(a, j, Direction::West)
}

/// Whether a piece on `j` can block a bishop on `a`.
pub open spec fn blocks_bishop(a: int, j: int) -> bool {
    blocks_ray(a, j, Direction::NorthWest) || blocks_ray(a, j, Direction::NorthEast) || blocks_ray(
        a,
        j,
        Direction::SouthWest,
    ) || blocks_ray(a, j, Direction::SouthEast)
}

/// A slide that passes over some empty squares only passes as well where
/// every square is empty, and then in any greater number of steps.
pub proof fn lemma_slide_on_empty_board(gen: u64, empty: u64, i: int, dir: Direction, n: nat, m: nat)
    requires
        n <= m,
        slides_to(gen, empty, i, dir, n),
    ensures
        slides_to(gen, ALL_SQUARES, i, dir, m),
    decreases n,
{
    lemma_bit_masks();
    if !bit(gen, i) {
        lemma_slide_on_empty_board(gen, empty, step_from(i, dir), dir, (n - 1) as nat, (m - 1) as nat);
    }
}

/// A slide from one square reaches a square that is not the last of its
/// ray in the same way whenever the squares that can block it are empty or
/// not in the same way.
pub proof fn lemma_slide_blockers(a: int, first: u64, second: u64, p: int, dir: Direction, n: nat)
    requires
        on_board(a),
        n <= 7,
        has_step_from(p + dir.delta(), dir),
        forall|j: int| blocks_ray(a, j, dir) ==> bit(first, j) == bit(second, j),
    ensures
        slides_to(1u64 << (a as u64), first, p, dir, n) == slides_to(1u64 << (a as u64), second, p, dir, n),
    decreases n,
{
    let gen = 1u64 << (a as u64);
    lemma_bit_single(a as u64);
    assert(bit(gen, p) == (p == a));
    if p != a && n > 0 && has_step_from(p, dir) {
        let prev = step_from(p, dir);
        assert(prev + dir.delta() == p);
        lemma_slide_blockers(a, first, second, prev, dir, (n - 1) as nat);
        if slides_to(gen, first, prev, dir, (n - 1) as nat) {
            lemma_slide_on_empty_board(gen, first, prev, dir, (n - 1) as nat, 7);
            lemma_slide_steps(a, prev, dir, 7);
            lemma_step_coordinates(p, dir);
            assert(blocks_ray(a, p, dir));
        }
    }
}

/// The squares that a sliding piece on `a` attacks in direction `dir` depend
/// on the squares that can block it alone.
pub proof fn lemma_ray_blockers(a: int, first: u64, second: u64, dir: Direction)
    requires
        on_board(a),
        forall|j: int| blocks_ray(a, j, dir) ==> bit(first, j) == bit(second, j),
    ensures
        forall|i: int| #[trigger]
            ray_hits(1u64 << (a as u64), first, i, dir) == ray_hits(1u64 << (a as u64), second, i, dir),
{
    assert forall|i: int| #[trigger]
        ray_hits(1u64 << (a as u64), first, i, dir) == ray_hits(1u64 << (a as u64), second, i, dir) by {
        if has_step_from(i, dir) {
            assert(step_from(i, dir) + dir.delta() == i);
            lemma_slide_blockers(a, first, second, step_from(i, dir), dir, 7);
        }
    }
}

/// The direction opposite to `dir`.
pub open spec fn opposite(dir: Direction) -> Direction {
    match dir {
        Direction::North => Direction::South,
        Direction::South => Direction::North,
        Direction::East => Direction::West,
        Direction::West => Direction::East,
        Direction::NorthEast => Direction::SouthWest,
        Direction::NorthWest => Direction::SouthEast,
        Direction::SouthEast => Direction::NorthWest,
        Direction::SouthWest => Direction::NorthEast,
    }
}

/// The squares that sliding pieces on `mask` attack in direction `dir`.
fn ray_towards(mask: OxideBitboard, empty: OxideBitboard, dir: Direction) -> (r: OxideBitboard)
    ensures
        forall|i: int| #[trigger] r.has(i) == ray_hits(mask.0, empty.0, i, dir),
{
    match dir {
        Direction::North => mask.north_ray_attacks(empty),
        Direction::South => mask.south_ray_attacks(empty),
        Direction::East => mask.east_ray_attacks(empty),
        Direction::West => mask.west_ray_attacks(empty),
        Direction::NorthEast => mask.north_east_ray_attacks(empty),
        Direction::NorthWest => mask.north_west_ray_attacks(empty),
        Direction::SouthEast => mask.south_east_ray_attacks(empty),
        Direction::SouthWest => mask.south_west_ray_attacks(empty),
    }
}

/// The set moved one step against direction `dir`.
fn step_against(mask: OxideBitboard, dir: Direction) -> (r: OxideBitboard)
    ensures
        forall|i: int| #[trigger]
            r.has(i) == (has_step_from(i, opposite(dir)) && mask.has(step_from(i, opposite(dir)))),
{
    match dir {
        Direction::North => mask.south_shift(),
        Direction::South => mask.north_shift(),
        Direction::East => mask.west_shift(),
        Direction::West => mask.east_shift(),
        Direction::NorthEast => mask.south_west_shift(),
        Direction::NorthWest => mask.south_east_shift(),
        Direction::SouthEast => mask.north_west_shift(),
        Direction::SouthWest => mask.north_east_shift(),
    }
}

/// A step against a direction starts where a step in the direction ends.
pub proof fn lemma_opposite_step(j: int, dir: Direction)
    ensures
        has_step_from(j, opposite(dir)) == (on_board(j) && has_step_from(j + dir.delta(), dir)),
        step_from(j, opposite(dir)) == j + dir.delta(),
{
    match dir {
        Direction::North => {},
        Direction::South => {},
        Direction::East => {},
        Direction::West => {},
        Direction::NorthEast => {},
        Direction::NorthWest => {},
        Direction::SouthEast => {},
        Direction::SouthWest => {},
    }
}

/// The squares on which a piece can block a slide from `from` in direction
/// `dir`.
fn ray_blockers(from: OxideSquare, dir: Direction) -> (r: OxideBitboard)
    ensures
        forall|j: int| #[trigger] r.has(j) == blocks_ray(from.index(), j, dir),
{
    let from_mask = from.to_mask();
    let ray = ray_towards(from_mask, OxideBitboard::full(), dir);
    let next = step_against(ray, dir);
    let r = OxideBitboard(ray.0 & next.0);
    proof {
        let a = from.index();
        lemma_bit_and(ray.0, next.0);
        assert forall|j: int| #[trigger] r.has(j) == blocks_ray(a, j, dir) by {
            lemma_opposite_step(j, dir);
            if on_board(j) {
                if has_step_from(j, dir) {
                    lemma_slide_steps(a, step_from(j, dir), dir, 7);
                    lemma_step_coordinates(j, dir);
                }
                let n = j + dir.delta();
                if has_step_from(n, dir) {
                    assert(step_from(n, dir) == j);
                    lemma_slide_steps(a, j, dir, 7);
                    lemma_step_coordinates(n, dir);
                }
                if lies_towards(a, j, dir) && j != a && !has_step_from(j, dir) {
                    if crate::bits::file_of(a) == crate::bits::file_of(j) && crate::bits::rank_of(a)
                        == crate::bits::rank_of(j) {
                        crate::line::lemma_square_coordinates(a, j);
                    }
                }
            }
        }
    }
    r
}

/// The squares on which a piece can block a rook on `from`.
pub fn rook_blockers(from: OxideSquare) -> (r: OxideBitboard)
    ensures
        forall|j: int| #[trigger] r.has(j) == blocks_rook(from.index(), j),
{
    let north = ray_blockers(from, Direction::North);
    let south = ray_blockers(from, Direction::South);
    let east = ray_blockers(from, Direction::East);
    let west = ray_blockers(from, Direction::West);
    proof {
        lemma_bit_or(north.0, south.0);
        lemma_bit_or(north.0 | south.0, east.0);
        lemma_bit_or(north.0 | south.0 | east.0, west.0);
    }
    OxideBitboard(north.0 | south.0 | east.0 | west.0)
}

/// The squares on which a piece can block a bishop on `from`.
pub fn bishop_blockers(from: OxideSquare) -> (r: OxideBitboard)
    ensures
        forall|j: int| #[trigger] r.has(j) == blocks_bishop(from.index(), j),
{
    let north_west = ray_blockers(from, Direction::NorthWest);
    let north_east = ray_blockers(from, Direction::NorthEast);
    let south_west = ray_blockers(from, Direction::SouthWest);
    let south_east = ray_blockers(from, Direction::SouthEast);
    proof {
        lemma_bit_or(north_west.0, north_east.0);
        lemma_bit_or(north_west.0 | north_east.0, south_west.0);
        lemma_bit_or(north_west.0 | north_east.0 | south_west.0, south_east.0);
    }
    OxideBitboard(north_west.0 | north_east.0 | south_west.0 | south_east.0)
}

/// What a bishop on `a` attacks does not change where the occupancy is cut
/// down to the squares that can block the bishop.
pub proof fn lemma_bishop_blockers(a: int, occupied: u64, mask: u64)
    requires
        on_board(a),
        forall|j: int| blocks_bishop(a, j) ==> bit(mask, j),
    ensures
        forall|i: int| #[trigger]
            diagonal_hits(1u64 << (a as u64), !(occupied & mask), i) == diagonal_hits(
                1u64 << (a as u64),
                !occupied,
                i,
            ),
{
    lemma_bit_and(occupied, mask);
    lemma_bit_not(occupied & mask);
    lemma_bit_not(occupied);
    lemma_ray_blockers(a, !(occupied & mask), !occupied, Direction::NorthWest);
    lemma_ray_blockers(a, !(occupied & mask), !occupied, Direction::NorthEast);
    lemma_ray_blockers(a, !(occupied & mask), !occupied, Direction::SouthWest);
    lemma_ray_blockers(a, !(occupied & mask), !occupied, Direction::SouthEast);
}

/// What a rook on `a` attacks does not change where the occupancy is cut
/// down to the squares that can block the rook.
pub proof fn lemma_rook_blockers(a: int, occupied: u64, mask: u64)
    requires
        on_board(a),
        forall|j: int| blocks_rook(a, j) ==> bit(mask, j),
    ensures
        forall|i: int| #[trigger]
            cardinal_hits(1u64 << (a as u64), !(occupied & mask), i) == cardinal_hits(
                1u64 << (a as u64),
                !occupied,
                i,
            ),
{
    lemma_bit_and(occupied, mask);
    lemma_bit_not(occupied & mask);
    lemma_bit_not(occupied);
    lemma_ray_blockers(a, !(occupied & mask), !occupied, Direction::North);
    lemma_ray_blockers(a, !(occupied & mask), !occupied, Direction::South);
    lemma_ray_blockers(a, !(occupied & mask), !occupied, Direction::East);
    lemma_ray_blockers(a, !(occupied & mask), !occupied, Direction::West);
}

/// How many entries the table keeps for each square of a bishop.
pub const MAX_BISHOP_VARIATIONS: usize = 512;

/// How many entries the table keeps for each square of a rook.
pub const MAX_ROOK_VARIATIONS: usize = 4096;

/// Whether `entry` is what a bishop (if `diagonal`) or a rook on `a` attacks
/// when the pieces stand on the squares that spreading `index` over `mask`
/// gives.
pub open spec fn entry_holds(entry: u64, a: int, mask: u64, index: int, diagonal: bool) -> bool {
    forall|i: int| #[trigger]
        bit(entry, i) == (if diagonal {
            diagonal_hits(1u64 << (a as u64), !deposited(index as u64, mask), i)
        } else {
            cardinal_hits(1u64 << (a as u64), !deposited(index as u64, mask), i)
        })
}

/// Whether every entry of `row` is the attack set of its index.
pub open spec fn row_holds(row: Seq<u64>, a: int, mask: u64, diagonal: bool) -> bool {
    forall|index: int| 0 <= index < row.len() ==> #[trigger] entry_holds(row[index], a, mask, index, diagonal)
}

/// The attacks of the bishops and the rooks on every square, for every way
/// of filling the squares that can block them.
pub struct SlidingAttackTable {
    bishop_masks: Vec<u64>,
    rook_masks: Vec<u64>,
    bishop_rows: Vec<Vec<u64>>,
    rook_rows: Vec<Vec<u64>>,
}

impl SlidingAttackTable {
    /// Whether the table is filled as it should be: for each square it
    /// holds the squares that can block a bishop and a rook there, and for
    /// each index the attacks under the blockers that the index stands for.
    pub closed spec fn wf(&self) -> bool {
        &&& self.bishop_masks@.len() == 64
        &&& self.rook_masks@.len() == 64
        &&& self.bishop_rows@.len() == 64
        &&& self.rook_rows@.len() == 64
        &&& forall|a: int, j: int|
            0 <= a < 64 ==> #[trigger] bit(self.bishop_masks@[a], j) == blocks_bishop(a, j)
        &&& forall|a: int, j: int| 0 <= a < 64 ==> #[trigger] bit(self.rook_masks@[a], j) == blocks_rook(a, j)
        &&& forall|a: int|
            0 <= a < 64 ==> row_holds((#[trigger] self.bishop_rows@[a])@, a, self.bishop_masks@[a], true)
        &&& forall|a: int|
            0 <= a < 64 ==> row_holds((#[trigger] self.rook_rows@[a])@, a, self.rook_masks@[a], false)
    }

    /// The table, filled.
    pub fn new() -> (r: SlidingAttackTable)
        ensures
            r.wf(),
    {
        let mut bishop_masks: Vec<u64> = Vec::new();
        let mut rook_masks: Vec<u64> = Vec::new();
        let mut bishop_rows: Vec<Vec<u64>> = Vec::new();
        let mut rook_rows: Vec<Vec<u64>> = Vec::new();
        let mut offset: u8 = 0;
        while offset < 64
            invariant
                offset <= 64,
                bishop_masks@.len() == offset,
                rook_masks@.len() == offset,
                bishop_rows@.len() == offset,
                rook_rows@.len() == offset,
                forall|a: int, j: int| 0 <= a < offset ==> #[trigger] bit(bishop_masks@[a], j) == blocks_bishop(a, j),
                forall|a: int, j: int| 0 <= a < offset ==> #[trigger] bit(rook_masks@[a], j) == blocks_rook(a, j),
                forall|a: int| 0 <= a < offset ==> row_holds((#[trigger] bishop_rows@[a])@, a, bishop_masks@[a], true),
                forall|a: int| 0 <= a < offset ==> row_holds((#[trigger] rook_rows@[a])@, a, rook_masks@[a], false),
            decreases 64 - offset,
        {
            let from = OxideSquare::at(offset);
            let bishop_mask = bishop_blockers(from);
            let rook_mask = rook_blockers(from);
            let bishop_row = attack_row(from, bishop_mask.0, true, MAX_BISHOP_VARIATIONS);
            let rook_row = attack_row(from, rook_mask.0, false, MAX_ROOK_VARIATIONS);
            bishop_masks.push(bishop_mask.0);
            rook_masks.push(rook_mask.0);
            bishop_rows.push(bishop_row);
            rook_rows.push(rook_row);
            offset = offset + 1;
        }
        SlidingAttackTable { bishop_masks, rook_masks, bishop_rows, rook_rows }
    }

    /// The squares that can block a bishop on `from`.
    pub fn bishop_mask(&self, from: OxideSquare) -> (r: OxideBitboard)
        requires
            self.wf(),
        ensures
            forall|j: int| #[trigger] r.has(j) == blocks_bishop(from.index(), j),
    {
        OxideBitboard(self.bishop_masks[from.offset() as usize])
    }

    /// The squares that can block a rook on `from`.
    pub fn rook_mask(&self, from: OxideSquare) -> (r: OxideBitboard)
        requires
            self.wf(),
        ensures
            forall|j: int| #[trigger] r.has(j) == blocks_rook(from.index(), j),
    {
        OxideBitboard(self.rook_masks[from.offset() as usize])
    }
}

/// The attacks of a bishop (if `diagonal`) or of a rook on `from` for each
/// of the first `len` ways of filling the squares of `mask`.
fn attack_row(from: OxideSquare, mask: u64, diagonal: bool, len: usize) -> (r: Vec<u64>)
    ensures
        r@.len() == len,
        row_holds(r@, from.index(), mask, diagonal),
{
    let from_mask = from.to_mask();
    let mut row: Vec<u64> = Vec::new();
    let mut index: usize = 0;
    while index < len
        invariant
            index <= len,
            row@.len() == index,
            from_mask.0 == 1u64 << (from.index() as u64),
            row_holds(row@, from.index(), mask, diagonal),
        decreases len - index,
    {
        let blockers = OxideBitboard(pdep(index as u64, mask));
        let attacks = if diagonal {
            bishop_attacks(from_mask, blockers)
        } else {
            rook_attacks(from_mask, blockers)
        };
        let ghost before = row@;
        row.push(attacks.0);
        proof {
            assert forall|k: int| 0 <= k < row@.len() implies #[trigger] entry_holds(
                row@[k],
                from.index(),
                mask,
                k,
                diagonal,
            ) by {
                if k < before.len() {
                    assert(entry_holds(before[k], from.index(), mask, k, diagonal));
                }
            }
        }
        index = index + 1;
    }
    row
}

/// The squares that a bishop on `from_square` attacks when the squares of
/// `occupied_mask` hold pieces, found in the table.
pub fn bishop_attacks_lookup(table: &SlidingAttackTable, from_square: OxideSquare, occupied_mask: OxideBitboard) -> (r:
    OxideBitboard)
    requires
        table.wf(),
    ensures
        forall|i: int| #[trigger]
            r.has(i) == diagonal_hits(1u64 << (from_square.index() as u64), !occupied_mask.0, i),
{
    let square_offset = from_square.offset() as usize;
    let occupancy_mask = table.bishop_masks[square_offset];
    let index = pext(occupied_mask.0, occupancy_mask);
    let row = &table.bishop_rows[square_offset];
    if index < row.len() as u64 {
        let entry = row[index as usize];
        proof {
            let a = from_square.index();
            assert(row_holds(table.bishop_rows@[a]@, a, occupancy_mask, true));
            assert(entry_holds(entry, a, occupancy_mask, index as int, true));
            lemma_deposit_extracted(occupied_mask.0, occupancy_mask);
            assert forall|j: int| blocks_bishop(a, j) implies bit(occupancy_mask, j) by {
                assert(bit(table.bishop_masks@[a], j) == blocks_bishop(a, j));
            }
            lemma_bishop_blockers(a, occupied_mask.0, occupancy_mask);
        }
        OxideBitboard(entry)
    } else {
        bishop_attacks(from_square.to_mask(), occupied_mask)
    }
}

/// The squares that a rook on `from_square` attacks when the squares of
/// `occupied_mask` hold pieces, found in the table.
pub fn rook_attacks_lookup(table: &SlidingAttackTable, from_square: OxideSquare, occupied_mask: OxideBitboard) -> (r:
    OxideBitboard)
    requires
        table.wf(),
    ensures
        forall|i: int| #[trigger]
            r.has(i) == cardinal_hits(1u64 << (from_square.index() as u64), !occupied_mask.0, i),
{
    let square_offset = from_square.offset() as usize;
    let occupancy_mask = table.rook_masks[square_offset];
    let index = pext(occupied_mask.0, occupancy_mask);
    let row = &table.rook_rows[square_offset];
    if index < row.len() as u64 {
        let entry = row[index as usize];
        proof {
            let a = from_square.index();
            assert(row_holds(table.rook_rows@[a]@, a, occupancy_mask, false));
            assert(entry_holds(entry, a, occupancy_mask, index as int, false));
            lemma_deposit_extracted(occupied_mask.0, occupancy_mask);
            assert forall|j: int| blocks_rook(a, j) implies bit(occupancy_mask, j) by {
                assert(bit(table.rook_masks@[a], j) == blocks_rook(a, j));
            }
            lemma_rook_blockers(a, occupied_mask.0, occupancy_mask);
        }
        OxideBitboard(entry)
    } else {
        rook_attacks(from_square.to_mask(), occupied_mask)
    }
}

} // verus!
