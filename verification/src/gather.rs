//! Lists of moves made square by square.
//!
//! The moves are generated in a fixed order, which the contracts state as a
//! list: for each of a set of squares in increasing order, the moves that
//! belong to that square. `gather` is that list.
use vstd::prelude::*;
use crate::chess_move::OxideMove;

verus! {

/// The list made of `each(i)` for every square `i` below `n` that is
/// `wanted`, in increasing order of the squares.
pub open spec fn gather(
    wanted: spec_fn(int) -> bool,
    each: spec_fn(int) -> Seq<OxideMove>,
    n: nat,
) -> Seq<OxideMove>
    decreases n,
{
    if n == 0 {
        Seq::empty()
    } else {
        gather(wanted, each, (n - 1) as nat) + (if wanted(n - 1) {
            each(n - 1)
        } else {
            Seq::empty()
        })
    }
}

/// Squares that are not wanted add nothing to the list.
pub proof fn lemma_gather_skip(
    wanted: spec_fn(int) -> bool,
    each: spec_fn(int) -> Seq<OxideMove>,
    a: nat,
    b: nat,
)
    requires
        a <= b,
        forall|i: int| a <= i < b ==> !#[trigger] wanted(i),
    ensures
        gather(wanted, each, b) == gather(wanted, each, a),
    decreases b - a,
{
    if a < b {
        lemma_gather_skip(wanted, each, a, (b - 1) as nat);
        assert(gather(wanted, each, (b - 1) as nat) + Seq::<OxideMove>::empty() =~= gather(
            wanted,
            each,
            (b - 1) as nat,
        ));
    }
}

/// Lists that are made of the same parts are the same list.
pub proof fn lemma_gather_same(
    wanted: spec_fn(int) -> bool,
    each: spec_fn(int) -> Seq<OxideMove>,
    wanted2: spec_fn(int) -> bool,
    each2: spec_fn(int) -> Seq<OxideMove>,
    n: nat,
)
    requires
        forall|i: int| 0 <= i < n ==> #[trigger] wanted(i) == wanted2(i),
        forall|i: int| 0 <= i < n && wanted(i) ==> #[trigger] each(i) == each2(i),
    ensures
        gather(wanted, each, n) == gather(wanted2, each2, n),
    decreases n,
{
    if n > 0 {
        lemma_gather_same(wanted, each, wanted2, each2, (n - 1) as nat);
    }
}

/// Every move of the list belongs to one of the wanted squares.
pub proof fn lemma_gather_member(
    wanted: spec_fn(int) -> bool,
    each: spec_fn(int) -> Seq<OxideMove>,
    n: nat,
    m: OxideMove,
)
    requires
        gather(wanted, each, n).contains(m),
    ensures
        exists|i: int| 0 <= i < n && #[trigger] wanted(i) && each(i).contains(m),
    decreases n,
{
    if n > 0 {
        let head = gather(wanted, each, (n - 1) as nat);
        let tail = if wanted(n - 1) {
            each(n - 1)
        } else {
            Seq::<OxideMove>::empty()
        };
        let k = choose|k: int| 0 <= k < (head + tail).len() && (head + tail)[k] == m;
        if k < head.len() {
            assert(head[k] == m);
            lemma_gather_member(wanted, each, (n - 1) as nat, m);
        } else {
            assert(tail[k - head.len()] == m);
            assert(wanted(n - 1) && each(n - 1).contains(m));
        }
    }
}

/// The moves that belong to a wanted square are in the list.
pub proof fn lemma_gather_holds(
    wanted: spec_fn(int) -> bool,
    each: spec_fn(int) -> Seq<OxideMove>,
    n: nat,
    i: int,
    m: OxideMove,
)
    requires
        0 <= i < n,
        wanted(i),
        each(i).contains(m),
    ensures
        gather(wanted, each, n).contains(m),
    decreases n,
{
    let head = gather(wanted, each, (n - 1) as nat);
    let tail = if wanted(n - 1) {
        each(n - 1)
    } else {
        Seq::<OxideMove>::empty()
    };
    if i == n - 1 {
        let k = choose|k: int| 0 <= k < tail.len() && tail[k] == m;
        assert((head + tail)[head.len() + k] == m);
    } else {
        lemma_gather_holds(wanted, each, (n - 1) as nat, i, m);
        let k = choose|k: int| 0 <= k < head.len() && head[k] == m;
        assert((head + tail)[k] == m);
    }
}

/// The list has at most `width` moves for each square.
pub proof fn lemma_gather_len(
    wanted: spec_fn(int) -> bool,
    each: spec_fn(int) -> Seq<OxideMove>,
    n: nat,
    width: nat,
)
    requires
        forall|i: int| 0 <= i < n && wanted(i) ==> (#[trigger] each(i)).len() <= width,
    ensures
        gather(wanted, each, n).len() <= n * width,
    decreases n,
{
    if n > 0 {
        lemma_gather_len(wanted, each, (n - 1) as nat, width);
        assert(n * width == (n - 1) * width + width) by (nonlinear_arith);
    }
}

/// A move of a list that is made of two lists is in one of the two.
pub proof fn lemma_in_concat(a: Seq<OxideMove>, b: Seq<OxideMove>, m: OxideMove)
    requires
        (a + b).contains(m),
    ensures
        a.contains(m) || b.contains(m),
{
    let k = choose|k: int| 0 <= k < (a + b).len() && (a + b)[k] == m;
    if k < a.len() {
        assert(a[k] == m);
    } else {
        assert(b[k - a.len()] == m);
    }
}

/// A move of one of two lists is in the list that is made of the two.
pub proof fn lemma_concat_holds(a: Seq<OxideMove>, b: Seq<OxideMove>, m: OxideMove)
    requires
        a.contains(m) || b.contains(m),
    ensures
        (a + b).contains(m),
{
    if a.contains(m) {
        let k = choose|k: int| 0 <= k < a.len() && a[k] == m;
        assert((a + b)[k] == m);
    } else {
        let k = choose|k: int| 0 <= k < b.len() && b[k] == m;
        assert((a + b)[a.len() + k] == m);
    }
}

/// Two lists without repetitions that share no move make a list without
/// repetitions.
pub proof fn lemma_concat_no_duplicates(a: Seq<OxideMove>, b: Seq<OxideMove>)
    requires
        a.no_duplicates(),
        b.no_duplicates(),
        forall|m: OxideMove| !(a.contains(m) && b.contains(m)),
    ensures
        (a + b).no_duplicates(),
{
    assert forall|i: int, j: int| 0 <= i < (a + b).len() && 0 <= j < (a + b).len() && i != j implies (a + b)[i]
        != (a + b)[j] by {
        if i < a.len() && j >= a.len() {
            assert(a.contains(a[i]));
            assert(b.contains(b[j - a.len()]));
        }
        if j < a.len() && i >= a.len() {
            assert(a.contains(a[j]));
            assert(b.contains(b[i - a.len()]));
        }
    }
}

/// A list made square by square has no repetitions where the part of each
/// square has none and every move tells by `key` to which square it belongs.
pub proof fn lemma_gather_no_duplicates(
    wanted: spec_fn(int) -> bool,
    each: spec_fn(int) -> Seq<OxideMove>,
    n: nat,
    key: spec_fn(OxideMove) -> int,
)
    requires
        forall|i: int| 0 <= i < n && wanted(i) ==> (#[trigger] each(i)).no_duplicates(),
        forall|i: int, m: OxideMove| 0 <= i < n && wanted(i) && (#[trigger] each(i)).contains(m) ==> #[trigger] key(m) == i,
    ensures
        gather(wanted, each, n).no_duplicates(),
    decreases n,
{
    if n > 0 {
        let head = gather(wanted, each, (n - 1) as nat);
        let tail = if wanted(n - 1) {
            each(n - 1)
        } else {
            Seq::<OxideMove>::empty()
        };
        lemma_gather_no_duplicates(wanted, each, (n - 1) as nat, key);
        assert forall|m: OxideMove| !(head.contains(m) && tail.contains(m)) by {
            if head.contains(m) && tail.contains(m) {
                lemma_gather_member(wanted, each, (n - 1) as nat, m);
                let i = choose|i: int| 0 <= i < n - 1 && #[trigger] wanted(i) && each(i).contains(m);
                assert(key(m) == i);
                assert(each(n - 1).contains(m));
                assert(key(m) == n - 1);
            }
        }
        lemma_concat_no_duplicates(head, tail);
    }
}

/// Keeping some moves of a list without repetitions leaves a list without
/// repetitions.
pub proof fn lemma_filter_no_duplicates(all: Seq<OxideMove>, keep: spec_fn(OxideMove) -> bool)
    requires
        all.no_duplicates(),
    ensures
        all.filter(keep).no_duplicates(),
    decreases all.len(),
{
    reveal(Seq::filter);
    if all.len() > 0 {
        let rest = all.drop_last();
        assert forall|i: int, j: int| 0 <= i < rest.len() && 0 <= j < rest.len() && i != j implies rest[i]
            != rest[j] by {
            assert(rest[i] == all[i] && rest[j] == all[j]);
        }
        lemma_filter_no_duplicates(rest, keep);
        let kept = rest.filter(keep);
        if keep(all.last()) {
            assert forall|i: int, j: int|
                0 <= i < kept.push(all.last()).len() && 0 <= j < kept.push(all.last()).len() && i
                    != j implies kept.push(all.last())[i] != kept.push(all.last())[j] by {
                if i < kept.len() && j == kept.len() {
                    lemma_kept_is_listed(rest, keep, kept[i]);
                    let k = choose|k: int| 0 <= k < rest.len() && rest[k] == kept[i];
                    assert(all[k] == kept[i]);
                }
                if j < kept.len() && i == kept.len() {
                    lemma_kept_is_listed(rest, keep, kept[j]);
                    let k = choose|k: int| 0 <= k < rest.len() && rest[k] == kept[j];
                    assert(all[k] == kept[j]);
                }
            }
        }
    }
}

/// A move that is kept is a move of the list.
pub proof fn lemma_kept_is_listed(all: Seq<OxideMove>, keep: spec_fn(OxideMove) -> bool, m: OxideMove)
    requires
        all.filter(keep).contains(m),
    ensures
        all.contains(m),
{
    all.lemma_filter_contains_rev(keep, m);
}

} // verus!
