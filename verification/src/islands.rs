//! Regions of a level: cells joined through cells of one kind beside each
//! other. Walks can be reversed and joined, so being connected is an
//! equivalence on the cells of one kind; each region has a least cell, its
//! start, and every cell lies in the region of exactly one start.

use vstd::prelude::*;
use crate::map_builders::{beside, connected, count_true, is_walk, step_ok};
use crate::tiles::TileType;

verus! {

/// Cell `i` is a wall joined to no wall of a smaller index: the start of a
/// wall region.
pub open spec fn region_start(w: int, h: int, t: Seq<TileType>, i: int) -> bool {
    &&& 0 <= i < t.len()
    &&& t[i] == TileType::Wall
    &&& forall|q: int| 0 <= q < i ==> !#[trigger] connected(w, h, t, q, i)
}

/// The starts of the wall regions among the first `i` cells, in order.
pub open spec fn starts_upto(w: int, h: int, t: Seq<TileType>, i: int) -> Seq<int>
    decreases i,
{
    if i <= 0 {
        Seq::empty()
    } else {
        starts_upto(w, h, t, i - 1) + if region_start(w, h, t, i - 1) { seq![i - 1] } else { Seq::empty() }
    }
}

/// The starts of all wall regions of `t`, in order.
pub open spec fn region_starts(w: int, h: int, t: Seq<TileType>) -> Seq<int> {
    starts_upto(w, h, t, t.len() as int)
}

/// Cell `j` is joined to one of the first `i` cells.
pub open spec fn reached_before(w: int, h: int, t: Seq<TileType>, i: int, j: int) -> bool {
    exists|q: int| 0 <= q < i && #[trigger] connected(w, h, t, q, j)
}

/// The cells joined to cell `s`, one flag per cell.
pub open spec fn region_marks(w: int, h: int, t: Seq<TileType>, s: int) -> Seq<bool> {
    Seq::new(t.len(), |j: int| connected(w, h, t, s, j))
}

/// The number of cells joined to cell `s`.
pub open spec fn region_size(w: int, h: int, t: Seq<TileType>, s: int) -> int {
    count_true(region_marks(w, h, t, s))
}

/// The position of the first largest of the first `e` sizes (0 when `e` is
/// at most 1).
pub open spec fn first_largest(sizes: Seq<int>, e: int) -> int
    decreases e,
{
    if e <= 1 {
        0
    } else {
        let b = first_largest(sizes, e - 1);
        if sizes[e - 1] > sizes[b] { e - 1 } else { b }
    }
}

/// The sizes of the regions that start at `starts` after the first.
pub open spec fn island_sizes(w: int, h: int, t: Seq<TileType>, starts: Seq<int>) -> Seq<int> {
    Seq::new((starts.len() - 1) as nat, |e: int| region_size(w, h, t, starts[e + 1]))
}

/// What converting the wall islands makes of cell `k`: cells that are not
/// wall and the walls of the first region stay; the walls of the first
/// largest other region become water and those of the rest grass. With
/// fewer than two regions nothing changes.
pub open spec fn island_tile(w: int, h: int, t: Seq<TileType>, k: int) -> TileType {
    let s = region_starts(w, h, t);
    if s.len() <= 1 || t[k] != TileType::Wall || connected(w, h, t, s[0], k) {
        t[k]
    } else if connected(w, h, t, s[1 + first_largest(island_sizes(w, h, t, s), s.len() - 1)], k) {
        TileType::Water
    } else {
        TileType::Grass
    }
}

/// Being beside is symmetric.
pub proof fn lemma_beside_symmetric(w: int, h: int, a: int, b: int)
    ensures
        beside(w, h, a, b) == beside(w, h, b, a),
{
}

/// A walk from `s` to `k` read backwards goes from `k` to `s`.
pub proof fn lemma_connected_symmetric(w: int, h: int, t: Seq<TileType>, s: int, k: int)
    requires
        connected(w, h, t, s, k),
    ensures
        connected(w, h, t, k, s),
{
    let p = choose|p: Seq<int>| #[trigger] is_walk(w, h, t, t[s], p) && p[0] == s && p.last() == k;
    let n = p.len() as int;
    let q = Seq::new(p.len(), |i: int| p[n - 1 - i]);
    assert(t[k] == t[s]) by {
        assert(0 <= p[n - 1] < t.len() && t[p[n - 1]] == t[s]);
    }
    assert forall|i: int| 0 <= i < q.len() - 1 implies #[trigger] step_ok(w, h, q, i) by {
        assert(step_ok(w, h, p, n - 2 - i));
        lemma_beside_symmetric(w, h, p[n - 2 - i], p[n - 1 - i]);
    }
    assert forall|i: int| 0 <= i < q.len() implies 0 <= #[trigger] q[i] < t.len() && t[q[i]] == t[k] by {
        assert(0 <= p[n - 1 - i] < t.len() && t[p[n - 1 - i]] == t[s]);
    }
    assert(is_walk(w, h, t, t[k], q));
}

/// Walks from `s` to `k` and from `k` to `m` join into one from `s` to `m`.
pub proof fn lemma_connected_trans(w: int, h: int, t: Seq<TileType>, s: int, k: int, m: int)
    requires
        connected(w, h, t, s, k),
        connected(w, h, t, k, m),
    ensures
        connected(w, h, t, s, m),
{
    let p1 = choose|p: Seq<int>| #[trigger] is_walk(w, h, t, t[s], p) && p[0] == s && p.last() == k;
    let p2 = choose|p: Seq<int>| #[trigger] is_walk(w, h, t, t[k], p) && p[0] == k && p.last() == m;
    let n1 = p1.len() as int;
    assert(t[k] == t[s]) by {
        assert(0 <= p1[n1 - 1] < t.len() && t[p1[n1 - 1]] == t[s]);
    }
    let q = p1 + p2.drop_first();
    assert forall|i: int| 0 <= i < q.len() implies 0 <= #[trigger] q[i] < t.len() && t[q[i]] == t[s] by {
        if i < n1 {
            assert(q[i] == p1[i]);
            assert(0 <= p1[i] < t.len() && t[p1[i]] == t[s]);
        } else {
            assert(q[i] == p2[i - n1 + 1]);
            assert(0 <= p2[i - n1 + 1] < t.len() && t[p2[i - n1 + 1]] == t[k]);
        }
    }
    assert forall|i: int| 0 <= i < q.len() - 1 implies #[trigger] step_ok(w, h, q, i) by {
        if i < n1 - 1 {
            assert(step_ok(w, h, p1, i));
        } else if i == n1 - 1 {
            assert(q[i] == k);
            assert(step_ok(w, h, p2, 0));
        } else {
            assert(step_ok(w, h, p2, i - n1 + 1));
        }
    }
    if p2.len() == 1 {
        assert(q =~= p1);
    }
    assert(is_walk(w, h, t, t[s], q));
    assert(q.last() == m);
}

/// Every cell is joined to itself.
pub proof fn lemma_connected_self(w: int, h: int, t: Seq<TileType>, s: int)
    requires
        0 <= s < t.len(),
    ensures
        connected(w, h, t, s, s),
{
    let p = seq![s];
    assert(is_walk(w, h, t, t[s], p));
}

/// Joined cells are of one kind.
pub proof fn lemma_connected_kind(w: int, h: int, t: Seq<TileType>, s: int, k: int)
    requires
        connected(w, h, t, s, k),
    ensures
        0 <= s < t.len(),
        0 <= k < t.len(),
        t[k] == t[s],
{
    let p = choose|p: Seq<int>| #[trigger] is_walk(w, h, t, t[s], p) && p[0] == s && p.last() == k;
    assert(0 <= p[0] < t.len());
    assert(0 <= p[p.len() - 1] < t.len() && t[p[p.len() - 1]] == t[s]);
}

/// Each cell of a walk is joined to its first cell.
pub proof fn lemma_walk_prefix(w: int, h: int, t: Seq<TileType>, c: TileType, p: Seq<int>, m: int)
    requires
        is_walk(w, h, t, c, p),
        0 <= m < p.len(),
    ensures
        connected(w, h, t, p[0], p[m]),
{
    let q = p.take(m + 1);
    assert(0 <= p[0] < t.len() && t[p[0]] == c);
    assert forall|i: int| 0 <= i < q.len() - 1 implies #[trigger] step_ok(w, h, q, i) by {
        assert(step_ok(w, h, p, i));
    }
    assert forall|i: int| 0 <= i < q.len() implies 0 <= #[trigger] q[i] < t.len() && t[q[i]] == t[p[0]] by {
        assert(q[i] == p[i]);
    }
    assert(is_walk(w, h, t, t[p[0]], q));
}

/// Clearing whole wall regions of `t` to floor (`img`) leaves the regions
/// of the remaining walls as they were.
pub proof fn lemma_erased_regions(w: int, h: int, t: Seq<TileType>, img: Seq<TileType>, i: int, s: int, k: int)
    requires
        img.len() == t.len(),
        forall|j: int| 0 <= j < t.len() ==> #[trigger] img[j] == if t[j] == TileType::Wall && reached_before(w, h, t, i, j) {
            TileType::Floor
        } else {
            t[j]
        },
        0 <= s < t.len(),
        img[s] == TileType::Wall,
    ensures
        connected(w, h, img, s, k) == connected(w, h, t, s, k),
{
    assert(t[s] == TileType::Wall);
    if connected(w, h, img, s, k) {
        let p = choose|p: Seq<int>| #[trigger] is_walk(w, h, img, img[s], p) && p[0] == s && p.last() == k;
        assert forall|m: int| 0 <= m < p.len() implies 0 <= #[trigger] p[m] < t.len() && t[p[m]] == t[s] by {
            assert(0 <= p[m] < img.len() && img[p[m]] == img[s]);
        }
        assert(is_walk(w, h, t, t[s], p));
    }
    if connected(w, h, t, s, k) {
        let p = choose|p: Seq<int>| #[trigger] is_walk(w, h, t, t[s], p) && p[0] == s && p.last() == k;
        assert forall|m: int| 0 <= m < p.len() implies 0 <= #[trigger] p[m] < img.len() && img[p[m]] == img[s] by {
            assert(0 <= p[m] < t.len() && t[p[m]] == t[s]);
            if reached_before(w, h, t, i, p[m]) {
                let q = choose|q: int| 0 <= q < i && #[trigger] connected(w, h, t, q, p[m]);
                lemma_walk_prefix(w, h, t, t[s], p, m);
                lemma_connected_symmetric(w, h, t, s, p[m]);
                lemma_connected_trans(w, h, t, q, p[m], s);
                assert(reached_before(w, h, t, i, s));
            }
        }
        assert(is_walk(w, h, img, img[s], p));
    }
}

/// Every wall joined to cell `q` is in the region of a start at or before
/// `q`.
pub proof fn lemma_has_start(w: int, h: int, t: Seq<TileType>, q: int, j: int)
    requires
        connected(w, h, t, q, j),
        t[j] == TileType::Wall,
    ensures
        exists|s: int| 0 <= s <= q && region_start(w, h, t, s) && #[trigger] connected(w, h, t, s, j),
    decreases q,
{
    lemma_connected_kind(w, h, t, q, j);
    if region_start(w, h, t, q) {
        assert(connected(w, h, t, q, j));
    } else {
        let q2 = choose|q2: int| 0 <= q2 < q && #[trigger] connected(w, h, t, q2, q);
        lemma_connected_trans(w, h, t, q2, q, j);
        lemma_has_start(w, h, t, q2, j);
    }
}

/// The starts found among the first `i` cells are region starts, in
/// increasing order, and every region start below `i` is among them.
pub proof fn lemma_starts_upto(w: int, h: int, t: Seq<TileType>, i: int)
    requires
        0 <= i <= t.len(),
    ensures
        forall|e: int| 0 <= e < starts_upto(w, h, t, i).len() ==> 0 <= #[trigger] starts_upto(w, h, t, i)[e] < i
            && region_start(w, h, t, starts_upto(w, h, t, i)[e]),
        forall|a: int, b: int| 0 <= a < b < starts_upto(w, h, t, i).len() ==> #[trigger] starts_upto(w, h, t, i)[a] < #[trigger] starts_upto(w, h, t, i)[b],
        forall|s: int| 0 <= s < i && region_start(w, h, t, s) ==> #[trigger] starts_upto(w, h, t, i).contains(s),
    decreases i,
{
    if i > 0 {
        lemma_starts_upto(w, h, t, i - 1);
        let prev = starts_upto(w, h, t, i - 1);
        let cur = starts_upto(w, h, t, i);
        if region_start(w, h, t, i - 1) {
            assert(cur == prev.push(i - 1));
            assert forall|s: int| 0 <= s < i && region_start(w, h, t, s) implies #[trigger] cur.contains(s) by {
                if s == i - 1 {
                    assert(cur[prev.len() as int] == s);
                } else {
                    assert(prev.contains(s));
                    let e = choose|e: int| 0 <= e < prev.len() && prev[e] == s;
                    assert(cur[e] == s);
                }
            }
        } else {
            assert(cur =~= prev);
        }
    }
}

/// Two different region starts are not joined.
pub proof fn lemma_starts_apart(w: int, h: int, t: Seq<TileType>, a: int, b: int, j: int)
    requires
        region_start(w, h, t, a),
        region_start(w, h, t, b),
        a != b,
        connected(w, h, t, a, j),
    ensures
        !connected(w, h, t, b, j),
{
    if connected(w, h, t, b, j) {
        lemma_connected_symmetric(w, h, t, b, j);
        if a < b {
            lemma_connected_trans(w, h, t, a, j, b);
        } else {
            lemma_connected_symmetric(w, h, t, a, j);
            lemma_connected_trans(w, h, t, b, j, a);
        }
    }
}

} // verus!
