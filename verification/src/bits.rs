//! Sixty-four-bit words read as sets of board squares.
//!
//! Square `i` (rank times eight plus file, A1 = 0 and H8 = 63) belongs to the
//! word `x` exactly when `bit(x, i)` holds. The lemmas of this module restate
//! the machine operations on words as operations on such sets, so that the
//! rest of the library can reason about squares rather than about bits.
use vstd::prelude::*;
use vstd::std_specs::bits::{axiom_u64_trailing_zeros, u64_trailing_zeros};

verus! {

/// Every square but those of the A file.
pub const NOT_A_FILE: u64 = 0xfefefefefefefefe;

/// Every square but those of the H file.
pub const NOT_H_FILE: u64 = 0x7f7f7f7f7f7f7f7f;

/// Every square but those of the A and B files.
pub const NOT_AB_FILE: u64 = 0xfcfcfcfcfcfcfcfc;

/// Every square but those of the G and H files.
pub const NOT_GH_FILE: u64 = 0x3f3f3f3f3f3f3f3f;

/// The squares of the A file.
pub const FILE_A: u64 = 0x0101010101010101;

/// The squares of the first rank.
pub const RANK_ONE: u64 = 0xff;

/// The word that holds every square.
pub const ALL_SQUARES: u64 = 0xffffffffffffffff;

/// Whether square `i` belongs to the set `x`. No square outside `0..64` does.
pub open spec fn bit(x: u64, i: int) -> bool {
    0 <= i < 64 && (x >> (i as u64)) & 1 == 1
}

/// The file (0 for A up to 7 for H) of square `i`.
pub open spec fn file_of(i: int) -> int {
    i % 8
}

/// The rank (0 for the first up to 7 for the eighth) of square `i`.
pub open spec fn rank_of(i: int) -> int {
    i / 8
}

/// Whether `i` names a square of the board.
pub open spec fn on_board(i: int) -> bool {
    0 <= i < 64
}

proof fn bv_bitwise(a: u64, b: u64, i: u64)
    by (bit_vector)
    requires
        i < 64,
    ensures
        (((a & b) >> i) & 1 == 1) == (((a >> i) & 1 == 1) && ((b >> i) & 1 == 1)),
        (((a | b) >> i) & 1 == 1) == (((a >> i) & 1 == 1) || ((b >> i) & 1 == 1)),
        (((a ^ b) >> i) & 1 == 1) == (((a >> i) & 1 == 1) != ((b >> i) & 1 == 1)),
        (((!a) >> i) & 1 == 1) == !((a >> i) & 1 == 1),
{
}

proof fn bv_shifts(x: u64, d: u64, i: u64)
    by (bit_vector)
    requires
        i < 64,
        d < 64,
    ensures
        (((x << d) >> i) & 1 == 1) == (i >= d && ((x >> ((i - d) as u64)) & 1 == 1)),
        (((x >> d) >> i) & 1 == 1) == (i + d < 64 && ((x >> ((i + d) as u64)) & 1 == 1)),
        (((1u64 << d) >> i) & 1 == 1) == (i == d),
{
}

proof fn bv_masks(f: u64, i: u64)
    by (bit_vector)
    requires
        i < 64,
        f < 8,
    ensures
        ((0xfefefefefefefefeu64 >> i) & 1 == 1) == (i % 8 != 0),
        ((0x7f7f7f7f7f7f7f7fu64 >> i) & 1 == 1) == (i % 8 != 7),
        ((0xfcfcfcfcfcfcfcfcu64 >> i) & 1 == 1) == (i % 8 >= 2),
        ((0x3f3f3f3f3f3f3f3fu64 >> i) & 1 == 1) == (i % 8 < 6),
        (((0x0101010101010101u64 << f) >> i) & 1 == 1) == (i % 8 == f),
        (((0xffu64 << (8 * f)) >> i) & 1 == 1) == (i / 8 == f),
        ((0u64 >> i) & 1 == 1) == false,
        ((0xffffffffffffffffu64 >> i) & 1 == 1) == true,
{
}

proof fn bv_xor_algebra(a: u64, b: u64, c: u64)
    by (bit_vector)
    ensures
        a ^ b == b ^ a,
        (a ^ b) ^ c == a ^ (b ^ c),
        a ^ a == 0,
        a ^ 0 == a,
        (a ^ b == 0) ==> a == b,
{
}

/// Intersection of sets is `&` of words.
pub proof fn lemma_bit_and(a: u64, b: u64)
    ensures
        forall|i: int| #[trigger] bit(a & b, i) == (bit(a, i) && bit(b, i)),
{
    assert forall|i: int| #[trigger] bit(a & b, i) == (bit(a, i) && bit(b, i)) by {
        if 0 <= i < 64 {
            bv_bitwise(a, b, i as u64);
        }
    }
}

/// Union of sets is `|` of words.
pub proof fn lemma_bit_or(a: u64, b: u64)
    ensures
        forall|i: int| #[trigger] bit(a | b, i) == (bit(a, i) || bit(b, i)),
{
    assert forall|i: int| #[trigger] bit(a | b, i) == (bit(a, i) || bit(b, i)) by {
        if 0 <= i < 64 {
            bv_bitwise(a, b, i as u64);
        }
    }
}

/// Symmetric difference of sets is `^` of words.
pub proof fn lemma_bit_xor(a: u64, b: u64)
    ensures
        forall|i: int| #[trigger] bit(a ^ b, i) == (bit(a, i) != bit(b, i)),
{
    assert forall|i: int| #[trigger] bit(a ^ b, i) == (bit(a, i) != bit(b, i)) by {
        if 0 <= i < 64 {
            bv_bitwise(a, b, i as u64);
        }
    }
}

/// Complement within the board is `!` of a word.
pub proof fn lemma_bit_not(a: u64)
    ensures
        forall|i: int| #[trigger] bit(!a, i) == (on_board(i) && !bit(a, i)),
{
    assert forall|i: int| #[trigger] bit(!a, i) == (on_board(i) && !bit(a, i)) by {
        if 0 <= i < 64 {
            bv_bitwise(a, a, i as u64);
        }
    }
}

/// Shifting a word left by `d` moves every square up by `d`; squares that
/// would pass 63 are lost.
pub proof fn lemma_bit_shl(x: u64, d: u64)
    requires
        d < 64,
    ensures
        forall|i: int| #[trigger] bit(x << d, i) == (i < 64 && bit(x, i - d)),
{
    assert forall|i: int| #[trigger] bit(x << d, i) == (i < 64 && bit(x, i - d)) by {
        if 0 <= i < 64 {
            bv_shifts(x, d, i as u64);
        }
    }
}

/// Shifting a word right by `d` moves every square down by `d`; squares that
/// would pass 0 are lost.
pub proof fn lemma_bit_shr(x: u64, d: u64)
    requires
        d < 64,
    ensures
        forall|i: int| #[trigger] bit(x >> d, i) == (0 <= i && bit(x, i + d)),
{
    assert forall|i: int| #[trigger] bit(x >> d, i) == (0 <= i && bit(x, i + d)) by {
        if 0 <= i < 64 {
            bv_shifts(x, d, i as u64);
        }
    }
}

/// The word `1 << k` is the set that holds square `k` alone.
pub proof fn lemma_bit_single(k: u64)
    requires
        k < 64,
    ensures
        forall|i: int| #[trigger] bit(1u64 << k, i) == (i == k),
{
    assert forall|i: int| #[trigger] bit(1u64 << k, i) == (i == k) by {
        if 0 <= i < 64 {
            bv_shifts(0, k, i as u64);
        }
    }
}

/// The members of the constant masks, by file and rank.
pub proof fn lemma_bit_masks()
    ensures
        forall|i: int| #[trigger] bit(NOT_A_FILE, i) == (on_board(i) && file_of(i) != 0),
        forall|i: int| #[trigger] bit(NOT_H_FILE, i) == (on_board(i) && file_of(i) != 7),
        forall|i: int| #[trigger] bit(NOT_AB_FILE, i) == (on_board(i) && file_of(i) >= 2),
        forall|i: int| #[trigger] bit(NOT_GH_FILE, i) == (on_board(i) && file_of(i) < 6),
        forall|i: int| !#[trigger] bit(0, i),
        forall|i: int| #[trigger] bit(ALL_SQUARES, i) == on_board(i),
{
    assert forall|i: int| #[trigger] bit(NOT_A_FILE, i) == (on_board(i) && file_of(i) != 0) by {
        if 0 <= i < 64 {
            bv_masks(0, i as u64);
        }
    }
    assert forall|i: int| #[trigger] bit(NOT_H_FILE, i) == (on_board(i) && file_of(i) != 7) by {
        if 0 <= i < 64 {
            bv_masks(0, i as u64);
        }
    }
    assert forall|i: int| #[trigger] bit(NOT_AB_FILE, i) == (on_board(i) && file_of(i) >= 2) by {
        if 0 <= i < 64 {
            bv_masks(0, i as u64);
        }
    }
    assert forall|i: int| #[trigger] bit(NOT_GH_FILE, i) == (on_board(i) && file_of(i) < 6) by {
        if 0 <= i < 64 {
            bv_masks(0, i as u64);
        }
    }
    assert forall|i: int| !#[trigger] bit(0, i) by {
        if 0 <= i < 64 {
            bv_masks(0, i as u64);
        }
    }
    assert forall|i: int| #[trigger] bit(ALL_SQUARES, i) == on_board(i) by {
        if 0 <= i < 64 {
            bv_masks(0, i as u64);
        }
    }
}

/// The squares of file `f` are those of the A file moved `f` to the east.
pub proof fn lemma_bit_file(f: u64)
    requires
        f < 8,
    ensures
        forall|i: int| #[trigger] bit(FILE_A << f, i) == (on_board(i) && file_of(i) == f),
{
    assert forall|i: int| #[trigger] bit(FILE_A << f, i) == (on_board(i) && file_of(i) == f) by {
        if 0 <= i < 64 {
            bv_masks(f, i as u64);
        }
    }
}

/// The squares of rank `r` are those of the first rank moved `r` to the north.
pub proof fn lemma_bit_rank(r: u64)
    requires
        r < 8,
    ensures
        forall|i: int| #[trigger] bit(RANK_ONE << (8 * r), i) == (on_board(i) && rank_of(i) == r),
{
    assert forall|i: int| #[trigger] bit(RANK_ONE << (8 * r), i) == (on_board(i) && rank_of(i) == r) by {
        if 0 <= i < 64 {
            bv_masks(r, i as u64);
        }
    }
}

/// A word is determined by the squares it holds.
pub proof fn lemma_bit_ext(a: u64, b: u64)
    requires
        forall|i: int| 0 <= i < 64 ==> bit(a, i) == bit(b, i),
    ensures
        a == b,
{
    let x = a ^ b;
    if x != 0 {
        axiom_u64_trailing_zeros(x);
        let tz = u64_trailing_zeros(x) as u64;
        bv_bitwise(a, b, tz);
        assert(bit(a, tz as int) == bit(b, tz as int));
    }
    bv_xor_algebra(a, b, 0);
}

/// A word that is not zero holds its lowest square, whose index is the
/// number of trailing zeros, and holds no square below it.
pub proof fn lemma_lowest_bit(x: u64)
    requires
        x != 0,
    ensures
        u64_trailing_zeros(x) < 64,
        bit(x, u64_trailing_zeros(x) as int),
        forall|i: int| 0 <= i < u64_trailing_zeros(x) ==> !bit(x, i),
{
    axiom_u64_trailing_zeros(x);
    assert forall|i: int| 0 <= i < u64_trailing_zeros(x) implies !bit(x, i) by {
        let j = i as u64;
        assert((x >> j) & 1u64 == 0u64);
    }
}

/// The empty word holds no square, and a word that holds no square is empty.
pub proof fn lemma_bit_zero(x: u64)
    ensures
        (x == 0) <==> (forall|i: int| 0 <= i < 64 ==> !bit(x, i)),
{
    lemma_bit_masks();
    if x != 0 {
        lemma_lowest_bit(x);
    }
}

/// `^` of words is commutative, associative and its own inverse.
pub proof fn lemma_xor_algebra(a: u64, b: u64, c: u64)
    ensures
        a ^ b == b ^ a,
        (a ^ b) ^ c == a ^ (b ^ c),
        a ^ a == 0,
        a ^ 0 == a,
        (a ^ b) ^ b == a,
{
    bv_xor_algebra(a, b, c);
    bv_xor_algebra(a, b, b);
    bv_xor_algebra(b, b, b);
}

/// The word that holds the squares below `n` of which `wanted` holds.
pub open spec fn word_where(wanted: spec_fn(int) -> bool, n: nat) -> u64
    decreases n,
{
    if n == 0 {
        0
    } else {
        word_where(wanted, (n - 1) as nat) | (if wanted(n - 1) {
            1u64 << ((n - 1) as u64)
        } else {
            0
        })
    }
}

/// `word_where` holds exactly the wanted squares.
pub proof fn lemma_word_where(wanted: spec_fn(int) -> bool, n: nat)
    requires
        n <= 64,
    ensures
        forall|i: int| #[trigger] bit(word_where(wanted, n), i) == (0 <= i < n && wanted(i)),
    decreases n,
{
    lemma_bit_masks();
    if n > 0 {
        let rest = word_where(wanted, (n - 1) as nat);
        let one = if wanted(n - 1) {
            1u64 << ((n - 1) as u64)
        } else {
            0
        };
        lemma_word_where(wanted, (n - 1) as nat);
        lemma_bit_single((n - 1) as u64);
        lemma_bit_or(rest, one);
    }
}


} // verus!
