//! Stable ranking of the positions `0 .. n` by a relation "stands above".
//!
//! The ranked order is built by insertion: position `k` is put behind every
//! position that it does not stand above. With a relation that is a strict
//! weak order this sorts, and positions that tie keep their natural order.

use vstd::prelude::*;

verus! {

/// Puts position `k` into an order that is already ranked: behind every
/// position it does not stand above, before the others.
pub open spec fn place(order: Seq<int>, above: spec_fn(int, int) -> bool, k: int) -> Seq<int>
    decreases order.len(),
{
    if order.len() == 0 {
        seq![k]
    } else if above(k, order.last()) {
        place(order.drop_last(), above, k).push(order.last())
    } else {
        order.push(k)
    }
}

/// The index at which [`place`] puts position `k`.
pub open spec fn slot(order: Seq<int>, above: spec_fn(int, int) -> bool, k: int) -> int
    decreases order.len(),
{
    if order.len() == 0 {
        0
    } else if above(k, order.last()) {
        slot(order.drop_last(), above, k)
    } else {
        order.len() as int
    }
}

/// The positions `0 .. n` in ranked order.
pub open spec fn ranking(above: spec_fn(int, int) -> bool, n: nat) -> Seq<int>
    decreases n,
{
    if n == 0 {
        Seq::empty()
    } else {
        place(ranking(above, (n - 1) as nat), above, n - 1)
    }
}

/// Whether `above` is a strict weak order on the positions `0 .. n`: nothing
/// stands above what stands above it, and "does not stand above" is
/// transitive.
pub open spec fn is_weak_order(above: spec_fn(int, int) -> bool, n: nat) -> bool {
    &&& forall|a: int, b: int|
        0 <= a < n && 0 <= b < n ==> !(#[trigger] above(a, b) && above(b, a))
    &&& forall|a: int, b: int, c: int|
        0 <= a < n && 0 <= b < n && 0 <= c < n && !#[trigger] above(a, b) && !#[trigger] above(b, c)
            ==> !above(a, c)
}

/// Whether `order` lists each of the positions `0 .. n` exactly once.
pub open spec fn lists_each_once(order: Seq<int>, n: nat) -> bool {
    &&& order.len() == n
    &&& forall|i: int| 0 <= i < n ==> 0 <= #[trigger] order[i] < n
    &&& forall|i: int, j: int| 0 <= i < j < n ==> #[trigger] order[i] != #[trigger] order[j]
    &&& forall|p: int| 0 <= p < n ==> #[trigger] order.contains(p)
}

/// Whether nothing in `order` stands above something listed earlier.
pub open spec fn in_rank_order(order: Seq<int>, above: spec_fn(int, int) -> bool) -> bool {
    forall|i: int, j: int|
        0 <= i < j < order.len() ==> !above(#[trigger] order[j], #[trigger] order[i])
}

/// Whether positions that tie are listed in their natural order.
pub open spec fn ties_keep_order(order: Seq<int>, above: spec_fn(int, int) -> bool) -> bool {
    forall|i: int, j: int|
        0 <= i < j < order.len() && !above(#[trigger] order[i], #[trigger] order[j]) ==> order[i]
            < order[j]
}

/// [`slot`] names the index from which on `k` stands above everything, while
/// it does not stand above what is listed just before.
pub proof fn lemma_slot(order: Seq<int>, above: spec_fn(int, int) -> bool, k: int)
    ensures
        0 <= slot(order, above, k) <= order.len(),
        forall|j: int| slot(order, above, k) <= j < order.len() ==> above(k, #[trigger] order[j]),
        slot(order, above, k) > 0 ==> !above(k, order[slot(order, above, k) - 1]),
    decreases order.len(),
{
    if order.len() > 0 && above(k, order.last()) {
        let rest = order.drop_last();
        lemma_slot(rest, above, k);
        let pos = slot(rest, above, k);
        assert forall|j: int| pos <= j < order.len() implies above(k, #[trigger] order[j]) by {
            if j < rest.len() {
                assert(rest[j] == order[j]);
            }
        }
        if pos > 0 {
            assert(rest[pos - 1] == order[pos - 1]);
        }
    }
}

/// Any index with the two properties of [`slot`] is where [`place`] inserts.
pub proof fn lemma_place_at(order: Seq<int>, above: spec_fn(int, int) -> bool, k: int, pos: int)
    requires
        0 <= pos <= order.len(),
        forall|j: int| pos <= j < order.len() ==> above(k, #[trigger] order[j]),
        pos > 0 ==> !above(k, order[pos - 1]),
    ensures
        place(order, above, k) == order.insert(pos, k),
    decreases order.len(),
{
    if order.len() == 0 {
        assert(order.insert(pos, k) =~= seq![k]);
    } else if above(k, order.last()) {
        assert(pos < order.len());
        let rest = order.drop_last();
        assert forall|j: int| pos <= j < rest.len() implies above(k, #[trigger] rest[j]) by {
            assert(rest[j] == order[j]);
        }
        lemma_place_at(rest, above, k, pos);
        assert(rest.insert(pos, k).push(order.last()) =~= order.insert(pos, k));
    } else {
        assert(pos == order.len()) by {
            if pos < order.len() {
                assert(above(k, order[order.len() - 1]));
            }
        }
        assert(order.push(k) =~= order.insert(pos, k));
    }
}

proof fn lemma_place_keeps_ranking(order: Seq<int>, above: spec_fn(int, int) -> bool, k: nat)
    requires
        is_weak_order(above, k + 1),
        lists_each_once(order, k),
        in_rank_order(order, above),
        ties_keep_order(order, above),
    ensures
        lists_each_once(place(order, above, k as int), k + 1),
        in_rank_order(place(order, above, k as int), above),
        ties_keep_order(place(order, above, k as int), above),
{
    let k = k as int;
    let pos = slot(order, above, k);
    lemma_slot(order, above, k);
    lemma_place_at(order, above, k, pos);
    let placed = order.insert(pos, k);
    assert(placed.len() == k + 1);
    assert forall|i: int| 0 <= i < k + 1 implies 0 <= #[trigger] placed[i] < k + 1 by {
        if i < pos {
            assert(placed[i] == order[i]);
        } else if i > pos {
            assert(placed[i] == order[i - 1]);
        }
    }
    assert forall|i: int, j: int| 0 <= i < j < k + 1 implies #[trigger] placed[i]
        != #[trigger] placed[j] by {
        let a = if i < pos { i } else { i - 1 };
        let b = if j < pos { j } else { j - 1 };
        if i != pos && j != pos {
            assert(placed[i] == order[a] && placed[j] == order[b]);
        } else if i == pos {
            assert(placed[j] == order[b]);
        } else {
            assert(placed[i] == order[a]);
        }
    }
    assert forall|p: int| 0 <= p < k + 1 implies #[trigger] placed.contains(p) by {
        if p == k {
            assert(placed[pos] == p);
        } else {
            assert(order.contains(p));
            let i = choose|i: int| 0 <= i < order.len() && order[i] == p;
            if i < pos {
                assert(placed[i] == p);
            } else {
                assert(placed[i + 1] == p);
            }
        }
    }
    assert forall|i: int, j: int| 0 <= i < j < placed.len() implies !above(
        #[trigger] placed[j],
        #[trigger] placed[i],
    ) by {
        let a = if i < pos { i } else { i - 1 };
        let b = if j < pos { j } else { j - 1 };
        if i != pos && j != pos {
            assert(placed[i] == order[a] && placed[j] == order[b]);
        } else if j == pos {
            // the new position does not stand above anything listed before
            assert(placed[i] == order[i]);
            assert(!above(k, order[pos - 1]));
            if i < pos - 1 {
                assert(!above(order[pos - 1], order[i]));
            } else {
                assert(!(above(order[i], order[i]) && above(order[i], order[i])));
            }
        } else {
            // the new position stands above everything listed after
            assert(placed[j] == order[j - 1]);
            assert(above(k, order[j - 1]));
            assert(!(above(k, order[j - 1]) && above(order[j - 1], k)));
        }
    }
    assert forall|i: int, j: int|
        0 <= i < j < placed.len() && !above(
            #[trigger] placed[i],
            #[trigger] placed[j],
        ) implies placed[i] < placed[j] by {
        let a = if i < pos { i } else { i - 1 };
        let b = if j < pos { j } else { j - 1 };
        if i != pos && j != pos {
            assert(placed[i] == order[a] && placed[j] == order[b]);
        } else if j == pos {
            assert(placed[i] == order[i]);
        } else {
            assert(placed[j] == order[j - 1]);
            assert(above(k, order[j - 1]));
        }
    }
}

/// The ranked order lists every position exactly once, never lists a
/// position before one that stands above it, and keeps positions that tie in
/// their natural order.
pub proof fn lemma_ranking(above: spec_fn(int, int) -> bool, n: nat)
    requires
        is_weak_order(above, n),
    ensures
        lists_each_once(ranking(above, n), n),
        in_rank_order(ranking(above, n), above),
        ties_keep_order(ranking(above, n), above),
    decreases n,
{
    if n > 0 {
        lemma_ranking(above, (n - 1) as nat);
        lemma_place_keeps_ranking(ranking(above, (n - 1) as nat), above, (n - 1) as nat);
    }
}

/// The index at which position `p` stands in `order`.
pub open spec fn index_in(order: Seq<int>, p: int) -> int {
    choose|i: int| 0 <= i < order.len() && order[i] == p
}

/// What stands above something else comes earlier in the ranked order.
pub proof fn lemma_above_comes_first(above: spec_fn(int, int) -> bool, n: nat, a: int, b: int)
    requires
        is_weak_order(above, n),
        0 <= a < n,
        0 <= b < n,
        above(a, b),
    ensures
        0 <= index_in(ranking(above, n), a) < index_in(ranking(above, n), b) < n,
{
    lemma_ranking(above, n);
    let order = ranking(above, n);
    assert(order.contains(a));
    assert(order.contains(b));
    let i = index_in(order, a);
    let j = index_in(order, b);
    assert(!(above(a, b) && above(b, a)));
    if j < i {
        assert(!above(order[i], order[j]));
    }
}

/// Of two positions that tie, the smaller one comes earlier in the ranked
/// order.
pub proof fn lemma_tie_keeps_order(above: spec_fn(int, int) -> bool, n: nat, a: int, b: int)
    requires
        is_weak_order(above, n),
        0 <= a < b < n,
        !above(a, b),
        !above(b, a),
    ensures
        0 <= index_in(ranking(above, n), a) < index_in(ranking(above, n), b) < n,
{
    lemma_ranking(above, n);
    let order = ranking(above, n);
    assert(order.contains(a));
    assert(order.contains(b));
    let i = index_in(order, a);
    let j = index_in(order, b);
    if j < i {
        assert(!above(order[j], order[i]));
        assert(order[j] < order[i]);
    }
}

/// The positions of a list as mathematical integers.
pub open spec fn positions(order: Seq<usize>) -> Seq<int> {
    order.map_values(|i: usize| i as int)
}

/// Ranks the positions `0 .. n` by the comparison `stands_above`, which
/// decides the relation `above`.
pub(crate) fn ranked_positions<F: Fn(usize, usize) -> bool>(
    n: usize,
    stands_above: F,
    Ghost(above): Ghost<spec_fn(int, int) -> bool>,
) -> (order: Vec<usize>)
    requires
        forall|a: usize, b: usize| a < n && b < n ==> call_requires(stands_above, (a, b)),
        forall|a: usize, b: usize, r: bool|
            a < n && b < n && call_ensures(stands_above, (a, b), r) ==> r == above(
                a as int,
                b as int,
            ),
    ensures
        positions(order@) == ranking(above, n as nat),
        order@.len() == n,
        forall|i: int| 0 <= i < n ==> #[trigger] order@[i] < n,
{
    let mut order: Vec<usize> = Vec::new();
    let mut k: usize = 0;
    while k < n
        invariant
            k <= n,
            order@.len() == k,
            positions(order@) == ranking(above, k as nat),
            forall|i: int| 0 <= i < order@.len() ==> #[trigger] order@[i] < k,
            forall|a: usize, b: usize| a < n && b < n ==> call_requires(stands_above, (a, b)),
            forall|a: usize, b: usize, r: bool|
                a < n && b < n && call_ensures(stands_above, (a, b), r) ==> r == above(
                    a as int,
                    b as int,
                ),
        decreases n - k,
    {
        let mut pos: usize = order.len();
        while pos > 0 && stands_above(k, order[pos - 1])
            invariant
                k < n,
                pos <= order@.len(),
                forall|i: int| 0 <= i < order@.len() ==> #[trigger] order@[i] < k,
                forall|j: int|
                    pos <= j < order@.len() ==> above(k as int, #[trigger] positions(order@)[j]),
                forall|a: usize, b: usize| a < n && b < n ==> call_requires(stands_above, (a, b)),
                forall|a: usize, b: usize, r: bool|
                    a < n && b < n && call_ensures(stands_above, (a, b), r) ==> r == above(
                        a as int,
                        b as int,
                    ),
            decreases pos,
        {
            proof {
                assert(positions(order@)[pos - 1] == order@[pos - 1] as int);
            }
            pos = pos - 1;
        }
        proof {
            let before = positions(order@);
            if pos > 0 {
                assert(before[pos - 1] == order@[pos - 1] as int);
            }
            lemma_place_at(before, above, k as int, pos as int);
            assert(positions(order@.insert(pos as int, k)) =~= before.insert(pos as int, k as int));
        }
        order.insert(pos, k);
        k = k + 1;
    }
    order
}

} // verus!
