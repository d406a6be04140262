//! The ways of the sliding pieces.
//!
//! A bishop, a rook or a queen attacks a square that lies in one of its
//! directions when no piece stands between the two. The lemmas of this
//! module say so of the attack sets, and say how the squares of one way lie
//! to each other.
use vstd::prelude::*;
use crate::attacks::piece_hits;
use crate::bitboard::ray_hits;
use crate::bits::{bit, file_of, lemma_bit_not, lemma_bit_single, on_board, rank_of};
use crate::line::{
    lemma_square_coordinates, lemma_step_coordinates, lies_towards, on_line, span, strictly_between,
};
use crate::piece::OxidePiece;
use crate::rays::{Direction, has_step_from, slides_to, step_from};
use crate::rules::{is_slider, single};

verus! {

/// Whether a slide from square `a` in direction `dir` that reaches square
/// `i` goes over square `j`: `j` lies beyond `a` and not beyond `i`.
pub open spec fn on_way(a: int, i: int, j: int, dir: Direction) -> bool {
    lies_towards(a, j, dir) && lies_towards(j, i, dir) && j != a
}

/// A slide from one square reaches the squares that lie in its direction,
/// near enough, with nothing but free squares on its way.
pub proof fn lemma_slide_path(a: int, empty: u64, i: int, dir: Direction, n: nat)
    requires
        on_board(a),
    ensures
        slides_to(single(a), empty, i, dir, n) == (lies_towards(a, i, dir) && span(a, i) <= n && forall|j: int|
            #[trigger] on_way(a, i, j, dir) ==> bit(empty, j)),
    decreases n,
{
    lemma_bit_single(a as u64);
    let gen = single(a);
    assert(bit(gen, i) == (i == a));
    if i == a {
        assert forall|j: int| #[trigger] on_way(a, i, j, dir) implies bit(empty, j) by {
            lemma_square_coordinates(a, j);
        }
    } else if n > 0 && has_step_from(i, dir) {
        let prev = step_from(i, dir);
        lemma_step_coordinates(i, dir);
        lemma_slide_path(a, empty, prev, dir, (n - 1) as nat);
        if file_of(a) == file_of(i) && rank_of(a) == rank_of(i) {
            lemma_square_coordinates(a, i);
        }
        if slides_to(gen, empty, i, dir, n) {
            assert(lies_towards(a, i, dir) && span(a, i) <= n);
            assert forall|j: int| #[trigger] on_way(a, i, j, dir) implies bit(empty, j) by {
                if j != i {
                    if file_of(j) == file_of(i) && rank_of(j) == rank_of(i) {
                        lemma_square_coordinates(j, i);
                    }
                    assert(on_way(a, prev, j, dir));
                }
            }
        }
        if lies_towards(a, i, dir) && span(a, i) <= n && forall|j: int| #[trigger]
            on_way(a, i, j, dir) ==> bit(empty, j) {
            assert(on_way(a, i, i, dir));
            assert(lies_towards(a, prev, dir) && span(a, prev) <= n - 1);
            assert forall|j: int| #[trigger] on_way(a, prev, j, dir) implies bit(empty, j) by {
                assert(on_way(a, i, j, dir));
            }
        }
    } else if on_board(i) {
        if file_of(a) == file_of(i) && rank_of(a) == rank_of(i) {
            lemma_square_coordinates(a, i);
        }
    }
}

/// Whether a sliding piece on `a` that attacks `k` in direction `dir` looks
/// over square `j`: `j` lies between the two.
pub open spec fn passes(a: int, k: int, j: int, dir: Direction) -> bool {
    lies_towards(a, j, dir) && lies_towards(j, k, dir) && j != a && j != k
}

/// A sliding piece attacks the squares that lie in one of its directions
/// with nothing but free squares between.
pub proof fn lemma_ray_path(a: int, empty: u64, k: int, dir: Direction)
    requires
        on_board(a),
    ensures
        ray_hits(single(a), empty, k, dir) == (lies_towards(a, k, dir) && k != a && forall|j: int|
            #[trigger] passes(a, k, j, dir) ==> bit(empty, j)),
{
    if has_step_from(k, dir) {
        let prev = step_from(k, dir);
        lemma_step_coordinates(k, dir);
        lemma_slide_path(a, empty, prev, dir, 7);
        if file_of(a) == file_of(k) && rank_of(a) == rank_of(k) {
            lemma_square_coordinates(a, k);
        }
        if ray_hits(single(a), empty, k, dir) {
            assert forall|j: int| #[trigger] passes(a, k, j, dir) implies bit(empty, j) by {
                if file_of(j) == file_of(k) && rank_of(j) == rank_of(k) {
                    lemma_square_coordinates(j, k);
                }
                assert(on_way(a, prev, j, dir));
            }
        }
        if lies_towards(a, k, dir) && k != a && forall|j: int| #[trigger] passes(a, k, j, dir) ==> bit(empty, j) {
            assert(lies_towards(a, prev, dir) && span(a, prev) <= 7);
            assert forall|j: int| #[trigger] on_way(a, prev, j, dir) implies bit(empty, j) by {
                assert(passes(a, k, j, dir));
            }
        }
    } else if on_board(k) {
        if file_of(a) == file_of(k) && rank_of(a) == rank_of(k) {
            lemma_square_coordinates(a, k);
        }
    }
}

/// Whether pieces of kind `kind` slide in direction `dir`.
pub open spec fn slides_in(kind: OxidePiece, dir: Direction) -> bool {
    match kind {
        OxidePiece::Bishop => dir == Direction::NorthEast || dir == Direction::NorthWest || dir
            == Direction::SouthEast || dir == Direction::SouthWest,
        OxidePiece::Rook => dir == Direction::North || dir == Direction::South || dir == Direction::East
            || dir == Direction::West,
        OxidePiece::Queen => true,
        _ => false,
    }
}

/// A sliding piece attacks a square in one of the directions in which it
/// slides.
pub proof fn lemma_slider_hits(kind: OxidePiece, a: int, occupied: u64, k: int)
    requires
        is_slider(kind),
    ensures
        piece_hits(kind, single(a), occupied, k) == exists|dir: Direction|
            slides_in(kind, dir) && #[trigger] ray_hits(single(a), !occupied, k, dir),
{
    let gen = single(a);
    let empty = !occupied;
    if piece_hits(kind, gen, occupied, k) {
        let dir = if ray_hits(gen, empty, k, Direction::North) && kind != OxidePiece::Bishop {
            Direction::North
        } else if ray_hits(gen, empty, k, Direction::South) && kind != OxidePiece::Bishop {
            Direction::South
        } else if ray_hits(gen, empty, k, Direction::East) && kind != OxidePiece::Bishop {
            Direction::East
        } else if ray_hits(gen, empty, k, Direction::West) && kind != OxidePiece::Bishop {
            Direction::West
        } else if ray_hits(gen, empty, k, Direction::NorthEast) {
            Direction::NorthEast
        } else if ray_hits(gen, empty, k, Direction::NorthWest) {
            Direction::NorthWest
        } else if ray_hits(gen, empty, k, Direction::SouthEast) {
            Direction::SouthEast
        } else {
            Direction::SouthWest
        };
        assert(slides_in(kind, dir) && ray_hits(gen, empty, k, dir));
    }
}

/// The squares of one ray lie on one line: where `b` lies between `s` and
/// `k`, a square `t` that is `s` or lies between `s` and `k` is on a line
/// with `b` that holds `k`.
pub proof fn lemma_ray_is_a_line(s: int, k: int, b: int, t: int, dir: Direction)
    requires
        passes(s, k, b, dir),
        t != b,
        t == s || passes(s, k, t, dir),
    ensures
        on_line(b, t, k),
{
    if file_of(b) == file_of(t) && rank_of(b) == rank_of(t) {
        lemma_square_coordinates(b, t);
    }
}

/// A slide that passes over free squares passes as well when more squares
/// are free.
pub proof fn lemma_slide_wider(gen: u64, narrow: u64, wide: u64, i: int, dir: Direction, n: nat)
    requires
        forall|j: int| bit(narrow, j) ==> bit(wide, j),
        slides_to(gen, narrow, i, dir, n),
    ensures
        slides_to(gen, wide, i, dir, n),
    decreases n,
{
    if !bit(gen, i) {
        lemma_slide_wider(gen, narrow, wide, step_from(i, dir), dir, (n - 1) as nat);
    }
}

/// A sliding piece that attacks a square in one direction attacks it as
/// well when more squares are free.
pub proof fn lemma_ray_wider(gen: u64, narrow: u64, wide: u64, i: int, dir: Direction)
    requires
        forall|j: int| bit(narrow, j) ==> bit(wide, j),
        ray_hits(gen, narrow, i, dir),
    ensures
        ray_hits(gen, wide, i, dir),
{
    lemma_slide_wider(gen, narrow, wide, step_from(i, dir), dir, 7);
}

/// A piece that attacks a square attacks it as well when fewer squares hold
/// pieces.
pub proof fn lemma_attacks_with_fewer(kind: OxidePiece, gen: u64, more: u64, fewer: u64, i: int)
    requires
        forall|j: int| bit(fewer, j) ==> bit(more, j),
        piece_hits(kind, gen, more, i),
    ensures
        piece_hits(kind, gen, fewer, i),
{
    lemma_bit_not(more);
    lemma_bit_not(fewer);
    let narrow = !more;
    let wide = !fewer;
    assert forall|j: int| bit(narrow, j) implies bit(wide, j) by {
        if bit(fewer, j) {
            assert(bit(more, j));
        }
    }
    if is_slider(kind) {
        if ray_hits(gen, narrow, i, Direction::North) {
            lemma_ray_wider(gen, narrow, wide, i, Direction::North);
        }
        if ray_hits(gen, narrow, i, Direction::South) {
            lemma_ray_wider(gen, narrow, wide, i, Direction::South);
        }
        if ray_hits(gen, narrow, i, Direction::East) {
            lemma_ray_wider(gen, narrow, wide, i, Direction::East);
        }
        if ray_hits(gen, narrow, i, Direction::West) {
            lemma_ray_wider(gen, narrow, wide, i, Direction::West);
        }
        if ray_hits(gen, narrow, i, Direction::NorthEast) {
            lemma_ray_wider(gen, narrow, wide, i, Direction::NorthEast);
        }
        if ray_hits(gen, narrow, i, Direction::NorthWest) {
            lemma_ray_wider(gen, narrow, wide, i, Direction::NorthWest);
        }
        if ray_hits(gen, narrow, i, Direction::SouthEast) {
            lemma_ray_wider(gen, narrow, wide, i, Direction::SouthEast);
        }
        if ray_hits(gen, narrow, i, Direction::SouthWest) {
            lemma_ray_wider(gen, narrow, wide, i, Direction::SouthWest);
        }
    }
}

/// The squares over which a sliding piece looks at a square are the squares
/// between the two.
pub proof fn lemma_between_on_ray(a: int, k: int, t: int, dir: Direction)
    requires
        lies_towards(a, k, dir),
    ensures
        passes(a, k, t, dir) == strictly_between(a, k, t),
{
    if file_of(a) == file_of(k) && rank_of(a) == rank_of(k) {
        lemma_square_coordinates(a, k);
    }
    if file_of(a) == file_of(t) && rank_of(a) == rank_of(t) {
        lemma_square_coordinates(a, t);
    }
    if file_of(t) == file_of(k) && rank_of(t) == rank_of(k) {
        lemma_square_coordinates(t, k);
    }
}

/// Where `b` lies between `s` and `k` on a ray, a square `t` on a line with
/// `b` and `k` that is neither `s` nor `k` nor between them lies beyond one
/// of the two: a way from `b` to `t` leads over `s` or over `k`.
pub proof fn lemma_beside_the_ray(s: int, k: int, b: int, t: int, dir: Direction, way: Direction)
    requires
        passes(s, k, b, dir),
        lies_towards(b, t, way),
        t != b,
        on_line(b, t, k),
        !passes(s, k, t, dir),
        t != s,
        t != k,
    ensures
        passes(b, t, s, way) || passes(b, t, k, way),
{
    if file_of(t) == file_of(s) && rank_of(t) == rank_of(s) {
        lemma_square_coordinates(t, s);
    }
    if file_of(t) == file_of(k) && rank_of(t) == rank_of(k) {
        lemma_square_coordinates(t, k);
    }
    if file_of(t) == file_of(b) && rank_of(t) == rank_of(b) {
        lemma_square_coordinates(t, b);
    }
    if file_of(b) == file_of(k) && rank_of(b) == rank_of(k) {
        lemma_square_coordinates(b, k);
    }
    if file_of(b) == file_of(s) && rank_of(b) == rank_of(s) {
        lemma_square_coordinates(b, s);
    }
}

/// No square lies between a king and two pieces that both look at the king
/// over it: of two sliding pieces behind one square on the ways to one
/// king, one stands between the other and the king.
pub proof fn lemma_one_way_in(c: int, d: int, k: int, t: int)
    requires
        c != d,
        strictly_between(c, k, t),
        strictly_between(d, k, t),
    ensures
        strictly_between(c, k, d) || strictly_between(d, k, c),
{
    if file_of(c) == file_of(d) && rank_of(c) == rank_of(d) {
        lemma_square_coordinates(c, d);
    }
    if file_of(t) == file_of(k) && rank_of(t) == rank_of(k) {
        lemma_square_coordinates(t, k);
    }
    if file_of(c) == file_of(k) && rank_of(c) == rank_of(k) {
        lemma_square_coordinates(c, k);
    }
    if file_of(d) == file_of(k) && rank_of(d) == rank_of(k) {
        lemma_square_coordinates(d, k);
    }
}

} // verus!
