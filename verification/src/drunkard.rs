//! The drunkard's bombing run: rooms joined by drunken corridors, the level
//! bombed open around its open cells, and the walls left over turned into
//! water and grass.

use vstd::prelude::*;
use crate::map::{TileMap, spec_xy_idx, lemma_xy_idx_bound, lemma_idx_parts};
use crate::map_builders::{DrunkardsBombingRunBuilder, Rect, apply_drunkards_corrider, connected, in_box, max_i, min_i};
use crate::snapshots::{history_grew, same_map, take_snapshot};
use crate::islands::{
    first_largest, island_sizes, island_tile, lemma_connected_kind, lemma_connected_self, lemma_connected_trans,
    lemma_erased_regions, lemma_has_start, lemma_starts_apart, lemma_starts_upto, reached_before, region_marks,
    region_size, region_start, region_starts, starts_upto,
};
use crate::rng::{rng_new, rng_range};
use crate::simple_map::{dug_so_far, room_center, room_inside, rooms_apart, rooms_ok};
use crate::components::Position;
use crate::utils::Point;
use crate::tiles::TileType;
use rltk::RandomNumberGenerator;

verus! {

/// The squared distance between the centres of two rooms.
pub open spec fn center_dist2(a: Rect, b: Rect) -> int {
    let ca = room_center(a);
    let cb = room_center(b);
    (ca.0 - cb.0) * (ca.0 - cb.0) + (ca.1 - cb.1) * (ca.1 - cb.1)
}

/// The nearest room to room `i` among rooms `j..`, whose centre is not that
/// of room `i`, the first of equals, after `best` (the nearest before `j`).
pub open spec fn nearest_from(rooms: Seq<Rect>, i: int, j: int, best: Option<(int, int)>) -> Option<(int, int)>
    decreases rooms.len() - j,
{
    if j < 0 || j >= rooms.len() {
        best
    } else {
        let d = center_dist2(rooms[i], rooms[j]);
        let next = if d > 0 && (best matches Some((_, bd)) ==> d < bd) { Some((j, d)) } else { best };
        nearest_from(rooms, i, j + 1, next)
    }
}

/// The room the corridor from room `i` leads to: the nearest later room
/// whose centre differs from room `i`'s (the first of equals), or the first
/// room when there is none.
pub open spec fn corridor_target(rooms: Seq<Rect>, i: int) -> int {
    match nearest_from(rooms, i, i + 1, None) {
        Some((j, _)) => j,
        None => 0,
    }
}

/// The nearest room found is one of the rooms.
proof fn lemma_nearest_in(rooms: Seq<Rect>, i: int, j: int, best: Option<(int, int)>)
    requires
        best matches Some((b, _)) ==> 0 <= b < rooms.len(),
    ensures
        nearest_from(rooms, i, j, best) matches Some((b, _)) ==> 0 <= b < rooms.len(),
    decreases rooms.len() - j,
{
    if 0 <= j < rooms.len() {
        let d = center_dist2(rooms[i], rooms[j]);
        let next = if d > 0 && (best matches Some((_, bd)) ==> d < bd) { Some((j, d)) } else { best };
        lemma_nearest_in(rooms, i, j + 1, next);
    }
}

/// The corridor target of a room is one of the rooms.
proof fn lemma_corridor_target_in(rooms: Seq<Rect>, i: int)
    requires
        rooms.len() > 0,
    ensures
        0 <= corridor_target(rooms, i) < rooms.len(),
{
    lemma_nearest_in(rooms, i, i + 1, None);
}

/// Cell `k` of a map `w` cells wide lies in the rectangle spanned by the
/// centre of room `i` and the centre of its corridor target, where the
/// drunken corridor between them walks.
pub open spec fn corridor_box(rooms: Seq<Rect>, w: int, i: int, k: int) -> bool {
    let a = room_center(rooms[i]);
    let b = room_center(rooms[corridor_target(rooms, i)]);
    in_box(w, min_i(a.0, b.0), max_i(a.0, b.0), min_i(a.1, b.1), max_i(a.1, b.1), k)
}

/// The index of the centre of the corridor target of room `i`.
pub open spec fn corridor_end(rooms: Seq<Rect>, w: int, i: int) -> int {
    let b = room_center(rooms[corridor_target(rooms, i)]);
    spec_xy_idx(w, b.0, b.1)
}

/// The rooms' centres fit `i32` arithmetic with room to spare.
pub open spec fn centers_small(rooms: Seq<Rect>) -> bool {
    forall|k: int| 0 <= k < rooms.len() ==> {
        &&& 0 <= (#[trigger] rooms[k]).x1 <= 0x3fff_ffff
        &&& 0 <= rooms[k].x2 <= 0x3fff_ffff
        &&& 0 <= rooms[k].y1 <= 0x3fff_ffff
        &&& 0 <= rooms[k].y2 <= 0x3fff_ffff
    }
}

/// The squared distance between the centres of two rooms.
fn center_distance_sq(a: &Rect, b: &Rect) -> (r: i64)
    requires
        0 <= a.x1 <= 0x3fff_ffff,
        0 <= a.x2 <= 0x3fff_ffff,
        0 <= a.y1 <= 0x3fff_ffff,
        0 <= a.y2 <= 0x3fff_ffff,
        0 <= b.x1 <= 0x3fff_ffff,
        0 <= b.x2 <= 0x3fff_ffff,
        0 <= b.y1 <= 0x3fff_ffff,
        0 <= b.y2 <= 0x3fff_ffff,
    ensures
        r == center_dist2(*a, *b),
{
    let (ax, ay) = a.center();
    let (bx, by) = b.center();
    let dx: i64 = ax as i64 - bx as i64;
    let dy: i64 = ay as i64 - by as i64;
    proof {
        assert(0 <= dx * dx <= 0x1000_0000_0000_0000) by (nonlinear_arith)
            requires -0x4000_0000 <= dx <= 0x4000_0000;
        assert(0 <= dy * dy <= 0x1000_0000_0000_0000) by (nonlinear_arith)
            requires -0x4000_0000 <= dy <= 0x4000_0000;
    }
    dx * dx + dy * dy
}

/// The room the corridor from room `i` leads to (see `corridor_target`).
pub fn nearest_room(rooms: &Vec<Rect>, i: usize) -> (r: usize)
    requires
        i < rooms@.len(),
        centers_small(rooms@),
    ensures
        r == corridor_target(rooms@, i as int),
        r < rooms@.len(),
{
    let mut best: Option<(usize, i64)> = None;
    let n = rooms.len();
    let mut j: usize = i + 1;
    while j < rooms.len()
        invariant
            i < rooms@.len(),
            i + 1 <= j <= rooms@.len(),
            centers_small(rooms@),
            best matches Some((b, _)) ==> b < rooms@.len(),
            nearest_from(rooms@, i as int, i + 1, None) == nearest_from(
                rooms@,
                i as int,
                j as int,
                match best {
                    Some((b, d)) => Some((b as int, d as int)),
                    None => None,
                },
            ),
        decreases rooms@.len() - j,
    {
        proof {
            assert(0 <= rooms@[i as int].x1 <= 0x3fff_ffff);
            assert(0 <= rooms@[j as int].x1 <= 0x3fff_ffff);
        }
        let d = center_distance_sq(&rooms[i], &rooms[j]);
        let better = match best {
            Some((_, bd)) => d > 0 && d < bd,
            None => d > 0,
        };
        if better {
            best = Some((j, d));
        }
        j += 1;
    }
    match best {
        Some((b, _)) => b,
        None => 0,
    }
}

/// The cells a bomb on cell `(tx, ty)` clears, in order: the cell to its
/// left, the cell above it, and itself (the cells less than `sqrt 2` away
/// on its side of the blast).
pub open spec fn bomb_cells(tx: int, ty: int) -> Seq<(int, int)> {
    seq![(tx - 1, ty), (tx, ty - 1), (tx, ty)]
}

/// The tiles and candidate cells after clearing cell `(x, y)`: a cell of the
/// map that is not floor becomes floor and joins the candidates.
pub open spec fn clear_cell(tiles: Seq<TileType>, cands: Seq<i32>, w: int, h: int, x: int, y: int) -> (Seq<TileType>, Seq<i32>) {
    let idx = spec_xy_idx(w, x, y);
    if 0 <= x < w && 0 <= y < h && tiles[idx] != TileType::Floor {
        (tiles.update(idx, TileType::Floor), cands.push(idx as i32))
    } else {
        (tiles, cands)
    }
}

/// The tiles and candidate cells after clearing the first `k` cells of a
/// bomb on `(tx, ty)`.
pub open spec fn bombed(tiles: Seq<TileType>, cands: Seq<i32>, w: int, h: int, tx: int, ty: int, k: int) -> (Seq<TileType>, Seq<i32>)
    decreases k,
{
    if k <= 0 {
        (tiles, cands)
    } else {
        let before = bombed(tiles, cands, w, h, tx, ty, k - 1);
        let c = bomb_cells(tx, ty)[k - 1];
        clear_cell(before.0, before.1, w, h, c.0, c.1)
    }
}

/// The number of cells that are not wall.
pub open spec fn open_count(tiles: Seq<TileType>) -> int
    decreases tiles.len(),
{
    if tiles.len() == 0 {
        0
    } else {
        open_count(tiles.drop_last()) + if tiles.last() != TileType::Wall { 1int } else { 0 }
    }
}

impl DrunkardsBombingRunBuilder {
    /// Drops a bomb on the cell of index `idx`: of the cell to its left, the
    /// cell above it and itself, each on the map that is not floor becomes
    /// floor and is added to `candidates`, in that order (see `bombed`).
    pub fn bomb_at(&mut self, candidates: &mut Vec<i32>, idx: usize)
        requires
            old(self).map.tiles@.len() == old(self).map.size.0 * old(self).map.size.1,
            old(self).map.tiles@.len() <= i32::MAX,
            idx < old(self).map.tiles@.len(),
        ensures
            ({
                let w = old(self).map.size.0 as int;
                let h = old(self).map.size.1 as int;
                let r = bombed(old(self).map.tiles@, old(candidates)@, w, h, idx as int % w, idx as int / w, 3);
                &&& final(self).map.tiles@ == r.0
                &&& final(candidates)@ == r.1
            }),
            final(self).map.size == old(self).map.size,
            final(self).map.blocked@ == old(self).map.blocked@,
            final(self).map.fire_turns@ == old(self).map.fire_turns@,
            final(self).map.tile_content@ == old(self).map.tile_content@,
            final(self).rooms@ == old(self).rooms@,
            final(self).starting_position == old(self).starting_position,
            final(self).depth == old(self).depth,
            final(self).history@ == old(self).history@,
    {
        let w = self.map.size.0;
        let h = self.map.size.1;
        let ghost wi = w as int;
        let ghost hi = h as int;
        proof {
            if w == 0 {
                assert(w * h == 0) by (nonlinear_arith) requires w == 0;
            }
            lemma_idx_parts(idx as int, wi);
            crate::map_builders::lemma_row_below_map(wi, hi, idx as int);
            assert(wi <= wi * hi && hi <= wi * hi) by (nonlinear_arith) requires wi >= 1, hi >= 1;
        }
        let tx = idx % w;
        let ty = idx / w;
        let ghost t0 = self.map.tiles@;
        let ghost c0 = candidates@;
        let mut k: usize = 0;
        while k < 3
            invariant
                k <= 3,
                w == self.map.size.0,
                h == self.map.size.1,
                wi == w,
                hi == h,
                w > 0,
                tx < w,
                ty < h,
                w <= i32::MAX,
                h <= i32::MAX,
                self.map.size == old(self).map.size,
                self.map.blocked@ == old(self).map.blocked@,
                self.map.fire_turns@ == old(self).map.fire_turns@,
                self.map.tile_content@ == old(self).map.tile_content@,
                self.rooms@ == old(self).rooms@,
                self.starting_position == old(self).starting_position,
                self.depth == old(self).depth,
                self.history@ == old(self).history@,
                self.map.tiles@.len() == w * h,
                w * h <= i32::MAX,
                (self.map.tiles@, candidates@) == bombed(t0, c0, wi, hi, tx as int, ty as int, k as int),
            decreases 3 - k,
        {
            let (x, y): (i64, i64) = if k == 0 {
                (tx as i64 - 1, ty as i64)
            } else if k == 1 {
                (tx as i64, ty as i64 - 1)
            } else {
                (tx as i64, ty as i64)
            };
            proof {
                assert(bomb_cells(tx as int, ty as int)[k as int] == (x as int, y as int));
            }
            if 0 <= x && 0 <= y && (x as usize) < w && (y as usize) < h {
                proof {
                    lemma_xy_idx_bound(wi, hi, x as int, y as int);
                }
                let cell = (y as usize) * w + (x as usize);
                if self.map.tiles[cell] != TileType::Floor {
                    self.map.tiles.set(cell, TileType::Floor);
                    candidates.push(cell as i32);
                }
            }
            k += 1;
        }
    }
}

/// A bomb only turns cells into floor and adds at most three cells of the
/// map to the candidates, after the ones already there.
proof fn lemma_bombed(t: Seq<TileType>, c: Seq<i32>, w: int, h: int, tx: int, ty: int, k: int)
    requires
        w > 0,
        h > 0,
        t.len() == w * h,
        w * h <= i32::MAX,
        0 <= k <= 3,
    ensures
        ({
            let r = bombed(t, c, w, h, tx, ty, k);
            &&& r.0.len() == t.len()
            &&& forall|i: int| 0 <= i < t.len() ==> #[trigger] r.0[i] == t[i] || r.0[i] == TileType::Floor
            &&& c.len() <= r.1.len() <= c.len() + k
            &&& forall|j: int| 0 <= j < c.len() ==> #[trigger] r.1[j] == c[j]
            &&& forall|j: int| c.len() <= j < r.1.len() ==> 0 <= #[trigger] r.1[j] < t.len()
        }),
    decreases k,
{
    if k > 0 {
        lemma_bombed(t, c, w, h, tx, ty, k - 1);
        let before = bombed(t, c, w, h, tx, ty, k - 1);
        let cell = bomb_cells(tx, ty)[k - 1];
        if 0 <= cell.0 < w && 0 <= cell.1 < h {
            lemma_xy_idx_bound(w, h, cell.0, cell.1);
        }
    }
}

/// No more cells are open than there are cells.
proof fn lemma_open_count_le(t: Seq<TileType>)
    ensures
        0 <= open_count(t) <= t.len(),
    decreases t.len(),
{
    if t.len() > 0 {
        lemma_open_count_le(t.drop_last());
    }
}

/// The cells that are not wall, in order.
fn open_cells(tiles: &Vec<TileType>) -> (r: Vec<i32>)
    requires
        tiles@.len() <= i32::MAX,
    ensures
        r@.len() == open_count(tiles@),
        forall|j: int| 0 <= j < r@.len() ==> 0 <= #[trigger] r@[j] < tiles@.len() && tiles@[r@[j] as int] != TileType::Wall,
{
    let mut r: Vec<i32> = Vec::new();
    let mut i: usize = 0;
    while i < tiles.len()
        invariant
            i <= tiles@.len(),
            tiles@.len() <= i32::MAX,
            r@.len() == open_count(tiles@.take(i as int)),
            forall|j: int| 0 <= j < r@.len() ==> 0 <= #[trigger] r@[j] < i && tiles@[r@[j] as int] != TileType::Wall,
        decreases tiles@.len() - i,
    {
        proof {
            assert(tiles@.take(i + 1).drop_last() =~= tiles@.take(i as int));
        }
        if tiles[i] != TileType::Wall {
            r.push(i as i32);
        }
        i += 1;
    }
    proof {
        assert(tiles@.take(tiles@.len() as int) =~= tiles@);
    }
    r
}

/// Cell `c` and the cells to its left and above it (those on a map `w`
/// cells wide) are floor in `t`: what a bomb on `c` leaves.
pub open spec fn cleared_around(t: Seq<TileType>, w: int, c: int) -> bool {
    &&& t[c] == TileType::Floor
    &&& c % w > 0 ==> t[c - 1] == TileType::Floor
    &&& c / w > 0 ==> t[c - w] == TileType::Floor
}

/// `dug` is `before` with the drunken corridors between `rooms` dug (see
/// `dig_drunken_corridors`): changed cells are floor inside a corridor's
/// rectangle, and each corridor between two different centres ends on
/// floor.
pub open spec fn corridors_dug(before: Seq<TileType>, dug: Seq<TileType>, rooms: Seq<Rect>, w: int) -> bool {
    &&& dug.len() == before.len()
    &&& forall|k: int| 0 <= k < before.len() ==> #[trigger] dug[k] == before[k]
        || (dug[k] == TileType::Floor && exists|i: int| 0 <= i < rooms.len() && #[trigger] corridor_box(rooms, w, i, k))
    &&& forall|i: int| 0 <= i < rooms.len() && room_center(rooms[i]) != room_center(rooms[corridor_target(rooms, i)])
        ==> dug[#[trigger] corridor_end(rooms, w, i)] == TileType::Floor
}

/// The index of the centre of the last of `rooms`, where the stairs go.
pub open spec fn stairs_at(rooms: Seq<Rect>, w: int) -> int {
    let c = room_center(rooms.last());
    spec_xy_idx(w, c.0, c.1)
}

/// `after` is `before` bombed open (see `bomb_level`), or `before` itself
/// when it has a single open cell.
pub open spec fn bombed_open(before: Seq<TileType>, after: Seq<TileType>, w: int) -> bool {
    if open_count(before) == 1 {
        after == before
    } else {
        &&& after.len() == before.len()
        &&& forall|k: int| 0 <= k < before.len() ==> #[trigger] after[k] == before[k] || after[k] == TileType::Floor
        &&& exists|centres: Seq<int>| #[trigger] bomb_centres(before, after, w, centres)
    }
}

/// A drunkard's level made from `t0` with `rooms`: the corridors dug
/// (`dug`), stairs down at the centre of the last room, the level bombed
/// open (`b`, also the last snapshot `last`), and the walls left over
/// turned into water and grass (`fin`, see `island_tile`).
pub open spec fn drunkards_level(
    t0: Seq<TileType>,
    rooms: Seq<Rect>,
    w: int,
    h: int,
    dug: Seq<TileType>,
    b: Seq<TileType>,
    fin: Seq<TileType>,
    last: TileMap,
) -> bool {
    &&& corridors_dug(t0, dug, rooms, w)
    &&& bombed_open(dug.update(stairs_at(rooms, w), TileType::StairsDown), b, w)
    &&& last.tiles@ == b
    &&& fin.len() == b.len()
    &&& forall|k: int| 0 <= k < b.len() ==> #[trigger] fin[k] == island_tile(w, h, b, k)
}

/// `centres` are where the bombs on `before` fell, one per bomb dropped
/// (nine fifths of the cells that are not wall, rounded down), each
/// cleared around in `after`; the first on a cell that was not wall.
pub open spec fn bomb_centres(before: Seq<TileType>, after: Seq<TileType>, w: int, centres: Seq<int>) -> bool {
    &&& centres.len() == open_count(before) * 9 / 5
    &&& forall|i: int| 0 <= i < centres.len() ==> 0 <= #[trigger] centres[i] < before.len()
        && cleared_around(after, w, centres[i])
    &&& centres.len() > 0 ==> before[centres[0]] != TileType::Wall
}

/// A bomb on cell `idx` leaves it cleared around, and floor stays floor.
proof fn lemma_bomb_clears(t: Seq<TileType>, c: Seq<i32>, w: int, h: int, idx: int)
    requires
        w > 0,
        h > 0,
        t.len() == w * h,
        w * h <= i32::MAX,
        0 <= idx < t.len(),
    ensures
        cleared_around(bombed(t, c, w, h, idx % w, idx / w, 3).0, w, idx),
        forall|k: int| 0 <= k < t.len() && t[k] == TileType::Floor ==> #[trigger] bombed(t, c, w, h, idx % w, idx / w, 3).0[k] == TileType::Floor,
{
    let tx = idx % w;
    let ty = idx / w;
    lemma_idx_parts(idx, w);
    crate::map_builders::lemma_row_below_map(w, h, idx);
    lemma_bombed(t, c, w, h, tx, ty, 3);
    let b1 = bombed(t, c, w, h, tx, ty, 1);
    let b2 = bombed(t, c, w, h, tx, ty, 2);
    let b3 = bombed(t, c, w, h, tx, ty, 3);
    lemma_bombed(t, c, w, h, tx, ty, 1);
    assert(bomb_cells(tx, ty)[0] == (tx - 1, ty));
    assert(bomb_cells(tx, ty)[1] == (tx, ty - 1));
    assert(bomb_cells(tx, ty)[2] == (tx, ty));
    assert(bombed(t, c, w, h, tx, ty, 0) == (t, c));
    assert(b1 == clear_cell(t, c, w, h, tx - 1, ty));
    assert(b2 == clear_cell(b1.0, b1.1, w, h, tx, ty - 1));
    assert(b3 == clear_cell(b2.0, b2.1, w, h, tx, ty));
    if tx > 0 {
        lemma_xy_idx_bound(w, h, tx - 1, ty);
        assert(b1.0[idx - 1] == TileType::Floor);
        assert(b2.0[idx - 1] == TileType::Floor);
        assert(b3.0[idx - 1] == TileType::Floor);
    }
    if ty > 0 {
        lemma_xy_idx_bound(w, h, tx, ty - 1);
        assert(b2.0[idx - w] == TileType::Floor);
        assert(b3.0[idx - w] == TileType::Floor);
    }
    lemma_xy_idx_bound(w, h, tx, ty);
    assert(b3.0[idx] == TileType::Floor);
    assert forall|k: int| 0 <= k < t.len() && t[k] == TileType::Floor implies #[trigger] b3.0[k] == TileType::Floor by {
        assert(b1.0[k] == TileType::Floor);
        assert(b2.0[k] == TileType::Floor);
    }
}

impl DrunkardsBombingRunBuilder {
    /// Bombs the level open. The cells that are not wall are the first
    /// candidates, in a random order; then 1.8 times as many bombs as there
    /// are candidates (rounded down) are dropped, each on a candidate drawn
    /// at random (one time in three the second to last one, otherwise one
    /// of the first half of the list), and every cell a bomb clears becomes
    /// a candidate too (see `bomb_at`). Only cells that become floor change,
    /// and every bomb leaves its cell and the cells to its left and above
    /// it floor (see `cleared_around`); the first falls on a cell that was
    /// not wall.
    pub fn bomb_level(&mut self)
        requires
            old(self).map.tiles@.len() == old(self).map.size.0 * old(self).map.size.1,
            old(self).map.tiles@.len() * 7 <= i32::MAX,
            open_count(old(self).map.tiles@) != 1,
        ensures
            final(self).map.tiles@.len() == old(self).map.tiles@.len(),
            forall|k: int| 0 <= k < old(self).map.tiles@.len() ==> #[trigger] final(self).map.tiles@[k]
                == old(self).map.tiles@[k] || final(self).map.tiles@[k] == TileType::Floor,
            exists|centres: Seq<int>| #[trigger] bomb_centres(old(self).map.tiles@, final(self).map.tiles@,
                old(self).map.size.0 as int, centres),
            final(self).map.size == old(self).map.size,
            final(self).map.blocked@ == old(self).map.blocked@,
            final(self).map.fire_turns@ == old(self).map.fire_turns@,
            final(self).map.tile_content@ == old(self).map.tile_content@,
            final(self).rooms@ == old(self).rooms@,
            final(self).starting_position == old(self).starting_position,
            final(self).depth == old(self).depth,
            final(self).history@ == old(self).history@,
    {
        let ghost t0 = self.map.tiles@;
        let mut rng = rng_new();
        let n = self.map.tiles.len();
        let w = self.map.size.0;
        let h = self.map.size.1;
        let mut candidates = open_cells(&self.map.tiles);
        let ghost open = candidates@;
        crate::rng::shuffle(&mut candidates);
        proof {
            assert forall|j: int| 0 <= j < candidates@.len() implies 0 <= #[trigger] candidates@[j] < n by {
                let v = candidates@[j];
                vstd::seq_lib::to_multiset_contains(candidates@, v);
                vstd::seq_lib::to_multiset_contains(open, v);
                assert(candidates@.contains(v));
                let q = choose|q: int| 0 <= q < open.len() && open[q] == v;
                assert(0 <= open[q] < n);
            }
        }
        let c0 = candidates.len();
        proof {
            lemma_open_count_le(t0);
        }
        let iterations = c0 * 9 / 5;
        let mut it: usize = 0;
        let ghost mut centres: Seq<int> = Seq::empty();
        while it < iterations
            invariant
                centres.len() == it,
                forall|i: int| 0 <= i < centres.len() ==> 0 <= #[trigger] centres[i] < n
                    && cleared_around(self.map.tiles@, w as int, centres[i]),
                it > 0 ==> t0[centres[0]] != TileType::Wall,
                it == 0 ==> candidates@.to_multiset() == open.to_multiset() && candidates@.len() == c0,
                forall|j: int| 0 <= j < open.len() ==> 0 <= #[trigger] open[j] < n && t0[open[j] as int] != TileType::Wall,
                c0 == open_count(t0),
                t0.len() == n,
                it <= iterations,
                iterations == c0 * 9 / 5,
                c0 <= n,
                n == self.map.tiles@.len(),
                n == w * h,
                n * 7 <= i32::MAX,
                w == self.map.size.0,
                h == self.map.size.1,
                iterations > 0 ==> c0 >= 2,
                c0 <= candidates@.len() <= c0 + 3 * it,
                forall|j: int| 0 <= j < candidates@.len() ==> 0 <= #[trigger] candidates@[j] < n,
                forall|k: int| 0 <= k < n ==> #[trigger] self.map.tiles@[k] == t0[k] || self.map.tiles@[k] == TileType::Floor,
                self.map.blocked@ == old(self).map.blocked@,
                self.map.fire_turns@ == old(self).map.fire_turns@,
                self.map.tile_content@ == old(self).map.tile_content@,
                self.rooms@ == old(self).rooms@,
                self.starting_position == old(self).starting_position,
                self.depth == old(self).depth,
                self.history@ == old(self).history@,
            decreases iterations - it,
        {
            let len = candidates.len();
            proof {
                assert(c0 + 3 * it <= c0 + 3 * iterations);
                assert(3 * iterations <= 3 * (c0 * 9) / 5);
            }
            let r = rng_range(&mut rng, 0, 3);
            let mut off: usize = if r == 0 {
                rng_range(&mut rng, (len - 2) as i32, (len - 1) as i32) as usize
            } else {
                rng_range(&mut rng, 0, (len / 2) as i32) as usize
            };
            if off >= len {
                off = len - 1;
            }
            let idx = candidates[off] as usize;
            let ghost tb = self.map.tiles@;
            let ghost cb = candidates@;
            proof {
                assert(0 <= candidates@[off as int] < n);
                if w == 0 {
                    assert(w * h == 0) by (nonlinear_arith) requires w == 0;
                }
                assert(h > 0) by {
                    if h == 0 {
                        assert(w * h == 0) by (nonlinear_arith) requires h == 0;
                    }
                }
            }
            proof {
                if it == 0 {
                    let v = candidates@[off as int];
                    assert(candidates@.contains(v));
                    vstd::seq_lib::to_multiset_contains(candidates@, v);
                    vstd::seq_lib::to_multiset_contains(open, v);
                    let q = choose|q: int| 0 <= q < open.len() && open[q] == v;
                    assert(t0[open[q] as int] != TileType::Wall);
                }
            }
            self.bomb_at(&mut candidates, idx);
            proof {
                lemma_bombed(tb, cb, w as int, h as int, idx as int % w as int, idx as int / w as int, 3);
                lemma_bomb_clears(tb, cb, w as int, h as int, idx as int);
                let old_centres = centres;
                centres = centres.push(idx as int);
                assert forall|i: int| 0 <= i < centres.len() implies 0 <= #[trigger] centres[i] < n
                    && cleared_around(self.map.tiles@, w as int, centres[i]) by {
                    if i < old_centres.len() {
                        let c = old_centres[i];
                        assert(centres[i] == c);
                        assert(cleared_around(tb, w as int, c));
                        lemma_idx_parts(c, w as int);
                        assert(tb[c] == TileType::Floor);
                        if c % (w as int) > 0 {
                            assert(tb[c - 1] == TileType::Floor);
                        }
                        if c / (w as int) > 0 {
                            assert(tb[c - w] == TileType::Floor);
                            assert(c - w >= 0);
                        }
                    }
                }
            }
            it += 1;
        }
        proof {
            assert(bomb_centres(t0, self.map.tiles@, w as int, centres));
        }
    }
}

/// A copy of `tiles`.
fn copy_tiles(tiles: &Vec<TileType>) -> (r: Vec<TileType>)
    ensures
        r@ == tiles@,
{
    let mut r: Vec<TileType> = Vec::new();
    let mut c: usize = 0;
    while c < tiles.len()
        invariant
            c <= tiles@.len(),
            r@ == tiles@.take(c as int),
        decreases tiles@.len() - c,
    {
        r.push(tiles[c]);
        proof {
            assert(r@ =~= tiles@.take(c + 1));
        }
        c += 1;
    }
    proof {
        assert(r@ =~= tiles@);
    }
    r
}

/// `img` is `t` with the wall regions of its first `i` cells cleared to
/// floor.
pub open spec fn cleared_upto(w: int, h: int, t: Seq<TileType>, img: Seq<TileType>, i: int) -> bool {
    &&& img.len() == t.len()
    &&& forall|j: int| 0 <= j < t.len() ==> #[trigger] img[j] == if t[j] == TileType::Wall && reached_before(w, h, t, i, j) {
        TileType::Floor
    } else {
        t[j]
    }
}

/// The islands found so far: one per region start after the first, each
/// marking the cells of its region and holding their number.
pub open spec fn islands_found(w: int, h: int, t: Seq<TileType>, islands: Seq<(Vec<bool>, i32)>, starts: Seq<int>) -> bool {
    &&& starts.len() == 0 ==> islands.len() == 0
    &&& starts.len() >= 1 ==> islands.len() == starts.len() - 1
    &&& forall|e: int| 0 <= e < islands.len() ==> {
        &&& (#[trigger] islands[e]).0@ == region_marks(w, h, t, starts[e + 1])
        &&& islands[e].1 == region_size(w, h, t, starts[e + 1])
    }
}

/// A cell that does not start a region leaves the cleared cells as they
/// were.
proof fn lemma_scan_skip(w: int, h: int, t: Seq<TileType>, img: Seq<TileType>, i: int)
    requires
        0 <= i < t.len(),
        cleared_upto(w, h, t, img, i),
        img[i] != TileType::Wall,
    ensures
        cleared_upto(w, h, t, img, i + 1),
        !region_start(w, h, t, i),
{
    assert forall|j: int| 0 <= j < t.len() && t[j] == TileType::Wall implies
        reached_before(w, h, t, i + 1, j) == reached_before(w, h, t, i, j) by {
        if reached_before(w, h, t, i + 1, j) {
            let q = choose|q: int| 0 <= q < i + 1 && #[trigger] connected(w, h, t, q, j);
            if q == i {
                lemma_connected_kind(w, h, t, i, j);
                let q2 = choose|q2: int| 0 <= q2 < i && #[trigger] connected(w, h, t, q2, i);
                lemma_connected_trans(w, h, t, q2, i, j);
            }
        }
        if reached_before(w, h, t, i, j) {
            let q = choose|q: int| 0 <= q < i && #[trigger] connected(w, h, t, q, j);
            assert(0 <= q < i + 1 && connected(w, h, t, q, j));
        }
    }
    if t[i] == TileType::Wall {
        let q2 = choose|q2: int| 0 <= q2 < i && #[trigger] connected(w, h, t, q2, i);
        assert(!region_start(w, h, t, i));
    }
}

/// Clearing the region of a start `i` clears the regions of the first
/// `i + 1` cells.
proof fn lemma_scan_region(w: int, h: int, t: Seq<TileType>, img: Seq<TileType>, after: Seq<TileType>, marks: Seq<bool>, i: int)
    requires
        0 <= i < t.len(),
        cleared_upto(w, h, t, img, i),
        img[i] == TileType::Wall,
        marks == region_marks(w, h, t, i),
        after.len() == img.len(),
        forall|k: int| 0 <= k < img.len() ==> #[trigger] after[k] == (if marks[k] { TileType::Floor } else { img[k] }),
    ensures
        cleared_upto(w, h, t, after, i + 1),
        region_start(w, h, t, i),
{
    assert forall|j: int| 0 <= j < t.len() implies #[trigger] after[j] == if t[j] == TileType::Wall && reached_before(w, h, t, i + 1, j) {
        TileType::Floor
    } else {
        t[j]
    } by {
        if marks[j] {
            lemma_connected_kind(w, h, t, i, j);
            assert(0 <= i < i + 1 && connected(w, h, t, i, j));
        } else {
            if reached_before(w, h, t, i + 1, j) {
                let q = choose|q: int| 0 <= q < i + 1 && #[trigger] connected(w, h, t, q, j);
                assert(q != i);
                assert(reached_before(w, h, t, i, j));
            }
            if reached_before(w, h, t, i, j) {
                let q = choose|q: int| 0 <= q < i && #[trigger] connected(w, h, t, q, j);
                assert(0 <= q < i + 1 && connected(w, h, t, q, j));
            }
        }
    }
    assert(t[i] == TileType::Wall);
    assert(!reached_before(w, h, t, i, i));
}

impl DrunkardsBombingRunBuilder {
    /// Scans the map for its wall regions in the order of their starts (see
    /// `region_starts`): the regions found after the first are the
    /// islands, each with its cells and their number.
    #[verifier::rlimit(40)]
    fn scan_islands(&self) -> (r: Vec<(Vec<bool>, i32)>)
        requires
            self.map.tiles@.len() == self.map.size.0 * self.map.size.1,
            self.map.tiles@.len() < i32::MAX,
        ensures
            islands_found(self.map.size.0 as int, self.map.size.1 as int, self.map.tiles@, r@,
                region_starts(self.map.size.0 as int, self.map.size.1 as int, self.map.tiles@)),
    {
        let ghost t0 = self.map.tiles@;
        let ghost w = self.map.size.0 as int;
        let ghost h = self.map.size.1 as int;
        let n = self.map.tiles.len();
        let mut mapcpy = copy_tiles(&self.map.tiles);
        let mut islands: Vec<(Vec<bool>, i32)> = Vec::new();
        let mut first = true;
        let mut i: usize = 0;
        proof {
            assert(starts_upto(w, h, t0, 0) =~= Seq::<int>::empty());
        }
        while i < n
            invariant
                i <= n,
                n == t0.len(),
                n == w * h,
                n < i32::MAX,
                w == self.map.size.0,
                h == self.map.size.1,
                self.map.tiles@ == t0,
                cleared_upto(w, h, t0, mapcpy@, i as int),
                first <==> starts_upto(w, h, t0, i as int).len() == 0,
                islands_found(w, h, t0, islands@, starts_upto(w, h, t0, i as int)),
            decreases n - i,
        {
            let ghost before = mapcpy@;
            let ghost prev = starts_upto(w, h, t0, i as int);
            if mapcpy[i] == TileType::Wall {
                let island = self.get_flood_fill(&mapcpy, i);
                proof {
                    assert forall|k: int| 0 <= k < n implies #[trigger] island.0@[k] == connected(w, h, t0, i as int, k) by {
                        lemma_erased_regions(w, h, t0, before, i as int, i as int, k);
                    }
                    assert(island.0@ =~= region_marks(w, h, t0, i as int));
                }
                erase_marked(&mut mapcpy, &island.0);
                proof {
                    lemma_scan_region(w, h, t0, before, mapcpy@, island.0@, i as int);
                    assert(starts_upto(w, h, t0, i + 1) == prev.push(i as int));
                }
                if first {
                    first = false;
                } else {
                    let ghost isl_before = islands@;
                    islands.push(island);
                    proof {
                        let cur = starts_upto(w, h, t0, i + 1);
                        assert forall|e: int| 0 <= e < islands@.len() implies {
                            &&& (#[trigger] islands@[e]).0@ == region_marks(w, h, t0, cur[e + 1])
                            &&& islands@[e].1 == region_size(w, h, t0, cur[e + 1])
                        } by {
                            if e < islands@.len() - 1 {
                                assert(islands@[e] == isl_before[e]);
                            }
                        }
                    }
                }
            } else {
                proof {
                    lemma_scan_skip(w, h, t0, mapcpy@, i as int);
                    assert(starts_upto(w, h, t0, i + 1) =~= prev);
                }
            }
            i += 1;
        }
        islands
    }
}

/// After painting the first `k` islands in order, water for island `best`
/// and grass for the others, what cell `j` of `t` holds.
pub open spec fn painted(islands: Seq<(Vec<bool>, i32)>, best: int, t: Seq<TileType>, j: int, k: int) -> TileType
    decreases k,
{
    if k <= 0 {
        t[j]
    } else if islands[k - 1].0@[j] {
        if k - 1 == best { TileType::Water } else { TileType::Grass }
    } else {
        painted(islands, best, t, j, k - 1)
    }
}

/// A cell marked by one island alone is painted by that island; a cell
/// marked by none keeps its tile.
proof fn lemma_painted(islands: Seq<(Vec<bool>, i32)>, best: int, t: Seq<TileType>, j: int, k: int)
    requires
        0 <= k <= islands.len(),
    ensures
        (forall|e: int| 0 <= e < k ==> !(#[trigger] islands[e]).0@[j]) ==> painted(islands, best, t, j, k) == t[j],
        forall|e: int| 0 <= e < k && (#[trigger] islands[e]).0@[j]
            && (forall|f: int| 0 <= f < k && f != e ==> !(#[trigger] islands[f]).0@[j])
            ==> painted(islands, best, t, j, k) == if e == best { TileType::Water } else { TileType::Grass },
    decreases k,
{
    if k > 0 {
        lemma_painted(islands, best, t, j, k - 1);
        assert forall|e: int| 0 <= e < k && (#[trigger] islands[e]).0@[j]
            && (forall|f: int| 0 <= f < k && f != e ==> !(#[trigger] islands[f]).0@[j])
            implies painted(islands, best, t, j, k) == if e == best { TileType::Water } else { TileType::Grass } by {
            if e < k - 1 {
                assert(!islands[k - 1].0@[j]);
            }
        }
    }
}

impl DrunkardsBombingRunBuilder {
    /// Paints the cells of each island in order: water for island `best`,
    /// grass for the others (see `painted`).
    fn paint_islands(&mut self, islands: &Vec<(Vec<bool>, i32)>, best: usize)
        requires
            best < islands@.len(),
            forall|e: int| 0 <= e < islands@.len() ==> (#[trigger] islands@[e]).0@.len() == old(self).map.tiles@.len(),
        ensures
            final(self).map.tiles@.len() == old(self).map.tiles@.len(),
            forall|j: int| 0 <= j < old(self).map.tiles@.len() ==> #[trigger] final(self).map.tiles@[j]
                == painted(islands@, best as int, old(self).map.tiles@, j, islands@.len() as int),
            final(self).map.size == old(self).map.size,
            final(self).map.blocked@ == old(self).map.blocked@,
            final(self).map.fire_turns@ == old(self).map.fire_turns@,
            final(self).map.tile_content@ == old(self).map.tile_content@,
            final(self).rooms@ == old(self).rooms@,
            final(self).starting_position == old(self).starting_position,
            final(self).depth == old(self).depth,
            final(self).history@ == old(self).history@,
    {
        let ghost t0 = self.map.tiles@;
        let n = self.map.tiles.len();
        let mut k: usize = 0;
        while k < islands.len()
            invariant
                k <= islands@.len(),
                best < islands@.len(),
                n == t0.len(),
                self.map.tiles@.len() == n,
                forall|e: int| 0 <= e < islands@.len() ==> (#[trigger] islands@[e]).0@.len() == n,
                self.map.size == old(self).map.size,
                self.map.blocked@ == old(self).map.blocked@,
                self.map.fire_turns@ == old(self).map.fire_turns@,
                self.map.tile_content@ == old(self).map.tile_content@,
                self.rooms@ == old(self).rooms@,
                self.starting_position == old(self).starting_position,
                self.depth == old(self).depth,
                self.history@ == old(self).history@,
                forall|q: int| 0 <= q < n ==> #[trigger] self.map.tiles@[q] == painted(islands@, best as int, t0, q, k as int),
            decreases islands@.len() - k,
        {
            let fill = if k == best { TileType::Water } else { TileType::Grass };
            let mut j: usize = 0;
            proof {
                assert(islands@[k as int].0@.len() == n);
            }
            while j < n
                invariant
                    j <= n,
                    k < islands@.len(),
                    best < islands@.len(),
                    islands@[k as int].0@.len() == n,
                    n == t0.len(),
                    self.map.tiles@.len() == n,
                    fill == if k == best { TileType::Water } else { TileType::Grass },
                    forall|e: int| 0 <= e < islands@.len() ==> (#[trigger] islands@[e]).0@.len() == n,
                    self.map.size == old(self).map.size,
                    self.map.blocked@ == old(self).map.blocked@,
                    self.map.fire_turns@ == old(self).map.fire_turns@,
                    self.map.tile_content@ == old(self).map.tile_content@,
                    self.rooms@ == old(self).rooms@,
                    self.starting_position == old(self).starting_position,
                    self.depth == old(self).depth,
                    self.history@ == old(self).history@,
                    forall|q: int| 0 <= q < n ==> #[trigger] self.map.tiles@[q] == painted(islands@, best as int, t0, q,
                        if q < j { k + 1 } else { k as int }),
                decreases n - j,
            {
                if islands[k].0[j] {
                    self.map.tiles.set(j, fill);
                }
                j += 1;
            }
            k += 1;
        }
    }

    /// Turns the walls left over into water and grass. The wall regions
    /// (walls joined through walls beside each other) are taken in the
    /// order of their least cells; the first stays wall, and of the others,
    /// the islands, the largest (the first found of the largest) becomes
    /// water and the rest grass (see `island_tile`). With fewer than two
    /// regions the map is left as it is.
    pub fn convert_islands(&mut self)
        requires
            old(self).map.tiles@.len() == old(self).map.size.0 * old(self).map.size.1,
            old(self).map.tiles@.len() < i32::MAX,
        ensures
            final(self).map.tiles@.len() == old(self).map.tiles@.len(),
            forall|k: int| 0 <= k < old(self).map.tiles@.len() ==> #[trigger] final(self).map.tiles@[k]
                == island_tile(old(self).map.size.0 as int, old(self).map.size.1 as int, old(self).map.tiles@, k),
            final(self).map.size == old(self).map.size,
            final(self).map.blocked@ == old(self).map.blocked@,
            final(self).map.fire_turns@ == old(self).map.fire_turns@,
            final(self).map.tile_content@ == old(self).map.tile_content@,
            final(self).rooms@ == old(self).rooms@,
            final(self).starting_position == old(self).starting_position,
            final(self).depth == old(self).depth,
            final(self).history@ == old(self).history@,
    {
        let ghost t0 = self.map.tiles@;
        let ghost w = self.map.size.0 as int;
        let ghost h = self.map.size.1 as int;
        let ghost starts = region_starts(w, h, t0);
        let islands = self.scan_islands();
        if islands.len() == 0 {
            proof {
                assert forall|k: int| 0 <= k < t0.len() implies #[trigger] self.map.tiles@[k] == island_tile(w, h, t0, k) by {}
            }
            return;
        }
        let ghost sizes = island_sizes(w, h, t0, starts);
        proof {
            assert forall|f: int| 0 <= f < islands@.len() implies (#[trigger] islands@[f]).1 == sizes[f] by {}
        }
        let mut best: usize = 0;
        let mut e: usize = 1;
        while e < islands.len()
            invariant
                1 <= e <= islands@.len(),
                best < e,
                best == first_largest(sizes, e as int),
                sizes.len() == islands@.len(),
                forall|f: int| 0 <= f < islands@.len() ==> (#[trigger] islands@[f]).1 == sizes[f],
            decreases islands@.len() - e,
        {
            if islands[e].1 > islands[best].1 {
                best = e;
            }
            e += 1;
        }
        proof {
            assert forall|f: int| 0 <= f < islands@.len() implies (#[trigger] islands@[f]).0@.len() == self.map.tiles@.len() by {}
        }
        self.paint_islands(&islands, best);
        proof {
            lemma_starts_upto(w, h, t0, t0.len() as int);
            assert forall|k: int| 0 <= k < t0.len() implies #[trigger] self.map.tiles@[k] == island_tile(w, h, t0, k) by {
                lemma_islands_painted(w, h, t0, islands@, best as int, k);
            }
        }
    }
}

/// What painting the islands makes of cell `k` is what `island_tile` says.
proof fn lemma_islands_painted(w: int, h: int, t: Seq<TileType>, islands: Seq<(Vec<bool>, i32)>, best: int, k: int)
    requires
        0 <= k < t.len(),
        islands.len() >= 1,
        islands_found(w, h, t, islands, region_starts(w, h, t)),
        best == first_largest(island_sizes(w, h, t, region_starts(w, h, t)), islands.len() as int),
        0 <= best < islands.len(),
    ensures
        painted(islands, best, t, k, islands.len() as int) == island_tile(w, h, t, k),
{
    let s = region_starts(w, h, t);
    lemma_starts_upto(w, h, t, t.len() as int);
    lemma_painted(islands, best, t, k, islands.len() as int);
    assert(s.len() == islands.len() + 1);
    let none_marks = forall|e: int| 0 <= e < islands.len() ==> !(#[trigger] islands[e]).0@[k];
    if t[k] != TileType::Wall {
        assert forall|e: int| 0 <= e < islands.len() implies !(#[trigger] islands[e]).0@[k] by {
            if islands[e].0@[k] {
                assert(region_start(w, h, t, s[e + 1]));
                lemma_connected_kind(w, h, t, s[e + 1], k);
            }
        }
    } else if connected(w, h, t, s[0], k) {
        assert forall|e: int| 0 <= e < islands.len() implies !(#[trigger] islands[e]).0@[k] by {
            assert(s[0] < s[e + 1]);
            lemma_starts_apart(w, h, t, s[0], s[e + 1], k);
        }
    } else {
        lemma_connected_self(w, h, t, k);
        lemma_has_start(w, h, t, k, k);
        let st = choose|st: int| 0 <= st <= k && region_start(w, h, t, st) && #[trigger] connected(w, h, t, st, k);
        assert(s.contains(st));
        let e1 = choose|e1: int| 0 <= e1 < s.len() && s[e1] == st;
        assert(e1 != 0);
        let e = e1 - 1;
        assert(islands[e].0@[k]);
        assert forall|f: int| 0 <= f < islands.len() && f != e implies !(#[trigger] islands[f]).0@[k] by {
            assert(s[f + 1] != s[e + 1]);
            lemma_starts_apart(w, h, t, s[e + 1], s[f + 1], k);
        }
        if e != best {
            assert(s[1 + best] != s[e + 1]);
            lemma_starts_apart(w, h, t, s[e + 1], s[1 + best], k);
        }
    }
}

/// Clears the marked cells of `image` to floor.
fn erase_marked(image: &mut Vec<TileType>, marks: &Vec<bool>)
    requires
        marks@.len() == old(image)@.len(),
    ensures
        final(image)@.len() == old(image)@.len(),
        forall|k: int| 0 <= k < old(image)@.len() ==> #[trigger] final(image)@[k] == (if marks@[k] { TileType::Floor } else { old(image)@[k] }),
{
    let n = image.len();
    let mut j: usize = 0;
    while j < n
        invariant
            j <= n,
            n == old(image)@.len(),
            marks@.len() == n,
            image@.len() == n,
            forall|k: int| 0 <= k < n ==> #[trigger] image@[k] == (if k < j && marks@[k] { TileType::Floor } else { old(image)@[k] }),
        decreases n - j,
    {
        if marks[j] {
            image.set(j, TileType::Floor);
        }
        j += 1;
    }
}

/// What a level's cells may have become: as they were, or floor, stairs,
/// water or grass.
pub open spec fn reshaped(before: Seq<TileType>, after: Seq<TileType>) -> bool {
    &&& after.len() == before.len()
    &&& forall|k: int| 0 <= k < after.len() ==> {
        ||| #[trigger] after[k] == before[k]
        ||| after[k] == TileType::Floor
        ||| after[k] == TileType::StairsDown
        ||| after[k] == TileType::Water
        ||| after[k] == TileType::Grass
    }
}

impl DrunkardsBombingRunBuilder {
    /// Tries `max_rooms` times to place a room of random size (sides from
    /// `min_size` up to, not including, `max_size`) at a random place inside
    /// the border; a room touching or overlapping one already placed is
    /// dropped. The rooms are only planned: no cell changes, and a snapshot
    /// of the map is recorded after each try.
    fn place_rooms(&mut self, max_rooms: i32, min_size: i32, max_size: i32, rng: &mut RandomNumberGenerator)
        requires
            old(self).rooms@.len() == 0,
            1 <= max_rooms,
            1 <= min_size < max_size,
            max_size + 2 < old(self).map.size.0 <= 0x3fff_ffff,
            max_size + 2 < old(self).map.size.1 <= 0x3fff_ffff,
        ensures
            *final(self) == (DrunkardsBombingRunBuilder { rooms: final(self).rooms, history: final(self).history, ..*old(self) }),
            history_grew(old(self).history@, final(self).history@, max_rooms as int),
            forall|i: int| old(self).history@.len() <= i < final(self).history@.len()
                ==> same_map(#[trigger] final(self).history@[i], old(self).map),
            1 <= final(self).rooms@.len() <= max_rooms,
            rooms_ok(final(self).rooms@, old(self).map.size.0 as int, old(self).map.size.1 as int),
            forall|i: int| 0 <= i < final(self).rooms@.len() ==> {
                &&& min_size <= (#[trigger] final(self).rooms@[i]).x2 - final(self).rooms@[i].x1 < max_size
                &&& min_size <= final(self).rooms@[i].y2 - final(self).rooms@[i].y1 < max_size
            },
    {
        let w = self.map.size.0;
        let h = self.map.size.1;
        let ghost wi = w as int;
        let ghost hi = h as int;
        let mut n: i32 = 0;
        while n < max_rooms
            invariant
                *self == (DrunkardsBombingRunBuilder { rooms: self.rooms, history: self.history, ..*old(self) }),
                history_grew(old(self).history@, self.history@, n as int),
                forall|i: int| old(self).history@.len() <= i < self.history@.len()
                    ==> same_map(#[trigger] self.history@[i], old(self).map),
                w == old(self).map.size.0,
                h == old(self).map.size.1,
                wi == w,
                hi == h,
                max_size + 2 < w <= 0x3fff_ffff,
                max_size + 2 < h <= 0x3fff_ffff,
                1 <= min_size < max_size,
                0 <= n <= max_rooms,
                n > 0 ==> self.rooms@.len() >= 1,
                self.rooms@.len() <= n,
                rooms_ok(self.rooms@, wi, hi),
                forall|i: int| 0 <= i < self.rooms@.len() ==> {
                    &&& min_size <= (#[trigger] self.rooms@[i]).x2 - self.rooms@[i].x1 < max_size
                    &&& min_size <= self.rooms@[i].y2 - self.rooms@[i].y1 < max_size
                },
            decreases max_rooms - n,
        {
            let rw = rng_range(rng, min_size, max_size);
            let rh = rng_range(rng, min_size, max_size);
            let x = rng_range(rng, 1, w as i32 - rw - 1);
            let y = rng_range(rng, 1, h as i32 - rh - 1);
            let new_room = Rect::new(x, y, rw, rh);
            let mut place_room = true;
            let mut j: usize = 0;
            while j < self.rooms.len()
                invariant
                    j <= self.rooms@.len(),
                    self.rooms@.len() == 0 ==> place_room,
                    place_room ==> forall|k: int| 0 <= k < j ==> rooms_apart(new_room, #[trigger] self.rooms@[k]),
                decreases self.rooms@.len() - j,
            {
                if new_room.intersect(&self.rooms[j]) {
                    place_room = false;
                }
                j += 1;
            }
            if place_room {
                let ghost old_rooms = self.rooms@;
                self.rooms.push(new_room);
                proof {
                    assert forall|a: int, b: int| 0 <= a < b < self.rooms@.len() implies rooms_apart(#[trigger] self.rooms@[a], #[trigger] self.rooms@[b]) by {
                        if b == old_rooms.len() {
                            assert(rooms_apart(new_room, old_rooms[a]));
                        } else {
                            assert(rooms_apart(old_rooms[a], old_rooms[b]));
                        }
                    }
                }
            }
            let ghost hb = self.history@;
            take_snapshot(&mut self.history, &self.map);
            proof {
                assert forall|i: int| old(self).history@.len() <= i < self.history@.len()
                    implies same_map(#[trigger] self.history@[i], old(self).map) by {
                    if i < hb.len() {
                        assert(self.history@[i] == hb[i]);
                    }
                }
            }
            n += 1;
        }
    }

    /// Digs a drunken corridor from the centre of each room to the centre
    /// of its nearest later room (see `corridor_target`): only cells in the
    /// rectangle a corridor spans become floor, and each corridor between
    /// two different centres reaches its target's centre. A snapshot of
    /// the map is recorded after each corridor.
    fn dig_drunken_corridors(&mut self)
        requires
            old(self).map.tiles_fit(),
            old(self).map.size.0 <= 0x3fff_ffff,
            old(self).map.size.1 <= 0x3fff_ffff,
            rooms_ok(old(self).rooms@, old(self).map.size.0 as int, old(self).map.size.1 as int),
        ensures
            final(self).map.tiles_fit(),
            final(self).map.size == old(self).map.size,
            final(self).map.blocked@ == old(self).map.blocked@,
            final(self).map.fire_turns@ == old(self).map.fire_turns@,
            final(self).map.tile_content@ == old(self).map.tile_content@,
            dug_so_far(old(self).map.tiles@, final(self).map.tiles@),
            forall|k: int| 0 <= k < old(self).map.tiles@.len() ==> #[trigger] final(self).map.tiles@[k] == old(self).map.tiles@[k]
                || (final(self).map.tiles@[k] == TileType::Floor && exists|i: int| 0 <= i < old(self).rooms@.len()
                    && #[trigger] corridor_box(old(self).rooms@, old(self).map.size.0 as int, i, k)),
            forall|i: int| 0 <= i < old(self).rooms@.len() && room_center(old(self).rooms@[i])
                != room_center(old(self).rooms@[corridor_target(old(self).rooms@, i)])
                ==> final(self).map.tiles@[#[trigger] corridor_end(old(self).rooms@, old(self).map.size.0 as int, i)] == TileType::Floor,
            final(self).rooms@ == old(self).rooms@,
            final(self).starting_position == old(self).starting_position,
            final(self).depth == old(self).depth,
            history_grew(old(self).history@, final(self).history@, old(self).rooms@.len() as int),
            old(self).rooms@.len() > 0 ==> same_map(final(self).history@.last(), final(self).map),
    {
        let ghost m0 = self.map;
        let ghost wi = self.map.size.0 as int;
        let ghost hi = self.map.size.1 as int;
        proof {
            assert(centers_small(self.rooms@)) by {
                assert forall|k: int| 0 <= k < self.rooms@.len() implies {
                    &&& 0 <= (#[trigger] self.rooms@[k]).x1 <= 0x3fff_ffff
                    &&& 0 <= self.rooms@[k].x2 <= 0x3fff_ffff
                    &&& 0 <= self.rooms@[k].y1 <= 0x3fff_ffff
                    &&& 0 <= self.rooms@[k].y2 <= 0x3fff_ffff
                } by {
                    assert(room_inside(self.rooms@[k], wi, hi));
                }
            }
        }
        let mut i: usize = 0;
        while i < self.rooms.len()
            invariant
                i <= self.rooms@.len(),
                self.map.tiles_fit(),
                self.map.size == m0.size,
                self.map.blocked@ == m0.blocked@,
                self.map.fire_turns@ == m0.fire_turns@,
                self.map.tile_content@ == m0.tile_content@,
                wi == m0.size.0,
                hi == m0.size.1,
                wi <= 0x3fff_ffff,
                hi <= 0x3fff_ffff,
                rooms_ok(self.rooms@, wi, hi),
                centers_small(self.rooms@),
                dug_so_far(m0.tiles@, self.map.tiles@),
                forall|k: int| 0 <= k < m0.tiles@.len() ==> #[trigger] self.map.tiles@[k] == m0.tiles@[k]
                    || (self.map.tiles@[k] == TileType::Floor && exists|j: int| 0 <= j < i
                        && #[trigger] corridor_box(self.rooms@, wi, j, k)),
                forall|j: int| 0 <= j < i && room_center(self.rooms@[j]) != room_center(self.rooms@[corridor_target(self.rooms@, j)])
                    ==> self.map.tiles@[#[trigger] corridor_end(self.rooms@, wi, j)] == TileType::Floor,
                self.rooms@ == old(self).rooms@,
                self.starting_position == old(self).starting_position,
                self.depth == old(self).depth,
                history_grew(old(self).history@, self.history@, i as int),
                i > 0 ==> same_map(self.history@.last(), self.map),
            decreases self.rooms@.len() - i,
        {
            let t = nearest_room(&self.rooms, i);
            let (x1, y1) = self.rooms[i].center();
            let (x2, y2) = self.rooms[t].center();
            proof {
                assert(room_inside(self.rooms@[i as int], wi, hi));
                assert(room_inside(self.rooms@[t as int], wi, hi));
                lemma_xy_idx_bound(wi, hi, max_i(x1 as int, x2 as int), max_i(y1 as int, y2 as int));
            }
            let ghost before = self.map.tiles@;
            apply_drunkards_corrider(&mut self.map, x1, y1, x2, y2);
            proof {
                let rs = self.rooms@;
                assert((x1 as int, y1 as int) == room_center(rs[i as int]));
                assert((x2 as int, y2 as int) == room_center(rs[corridor_target(rs, i as int)]));
                assert forall|k: int| 0 <= k < self.map.tiles@.len() implies #[trigger] self.map.tiles@[k] == m0.tiles@[k]
                    || self.map.tiles@[k] == TileType::Floor by {
                    assert(before[k] == m0.tiles@[k] || before[k] == TileType::Floor);
                }
                assert forall|k: int| 0 <= k < m0.tiles@.len() implies #[trigger] self.map.tiles@[k] == m0.tiles@[k]
                    || (self.map.tiles@[k] == TileType::Floor && exists|j: int| 0 <= j < i + 1
                        && #[trigger] corridor_box(rs, wi, j, k)) by {
                    if self.map.tiles@[k] != before[k] {
                        assert(corridor_box(rs, wi, i as int, k));
                    } else if before[k] != m0.tiles@[k] {
                        let j = choose|j: int| 0 <= j < i && #[trigger] corridor_box(rs, wi, j, k);
                        assert(corridor_box(rs, wi, j, k));
                    }
                }
                assert forall|j: int| 0 <= j < i + 1 && room_center(rs[j]) != room_center(rs[corridor_target(rs, j)])
                    implies self.map.tiles@[#[trigger] corridor_end(rs, wi, j)] == TileType::Floor by {
                    if j < i {
                        let e = corridor_end(rs, wi, j);
                        assert(before[e] == TileType::Floor);
                        assert(0 <= e < m0.tiles@.len()) by {
                            let b = room_center(rs[corridor_target(rs, j)]);
                            lemma_corridor_target_in(rs, j);
                            assert(room_inside(rs[corridor_target(rs, j)], wi, hi));
                            lemma_xy_idx_bound(wi, hi, b.0, b.1);
                        }
                    }
                }
            }
            let ghost hb = self.history@;
            take_snapshot(&mut self.history, &self.map);
            proof {
                assert forall|q: int| 0 <= q < old(self).history@.len() implies #[trigger] self.history@[q] == old(self).history@[q] by {
                    assert(self.history@[q] == hb[q]);
                }
            }
            i += 1;
        }
    }

    /// Builds the level: twenty tries at a room with sides of 4 to 7 cells
    /// (see `rooms_and_corridors`).
    pub fn build_map(&mut self)
        requires
            old(self).map.tiles_fit(),
            old(self).rooms@.len() == 0,
            10 < old(self).map.size.0,
            10 < old(self).map.size.1,
            old(self).map.size.0 * old(self).map.size.1 * 7 <= i32::MAX,
        ensures
            final(self).map.size == old(self).map.size,
            final(self).map.blocked@ == old(self).map.blocked@,
            final(self).map.fire_turns@ == old(self).map.fire_turns@,
            final(self).map.tile_content@ == old(self).map.tile_content@,
            reshaped(old(self).map.tiles@, final(self).map.tiles@),
            1 <= final(self).rooms@.len() <= 20,
            rooms_ok(final(self).rooms@, old(self).map.size.0 as int, old(self).map.size.1 as int),
            forall|i: int| 0 <= i < final(self).rooms@.len() ==> {
                &&& 4 <= (#[trigger] final(self).rooms@[i]).x2 - final(self).rooms@[i].x1 < 8
                &&& 4 <= final(self).rooms@[i].y2 - final(self).rooms@[i].y1 < 8
            },
            ({
                let c = room_center(final(self).rooms@[0]);
                final(self).starting_position.ps@ == seq![Point { x: c.0 as i32, y: c.1 as i32 }]
            }),
            final(self).depth == old(self).depth,
            exists|dug: Seq<TileType>, b: Seq<TileType>| #[trigger] drunkards_level(old(self).map.tiles@, final(self).rooms@,
                old(self).map.size.0 as int, old(self).map.size.1 as int, dug, b, final(self).map.tiles@,
                final(self).history@.last()),
            history_grew(old(self).history@, final(self).history@, 23 + final(self).rooms@.len() as int),
    {
        proof {
            assert(self.map.size.0 <= self.map.size.0 * self.map.size.1) by (nonlinear_arith)
                requires self.map.size.1 >= 1;
            assert(self.map.size.1 <= self.map.size.0 * self.map.size.1) by (nonlinear_arith)
                requires self.map.size.0 >= 1;
        }
        self.rooms_and_corridors(20, 4, 8);
    }

    /// Plans `max_rooms` tries at a room (see `place_rooms`), digs a drunken
    /// corridor from each room to its nearest later room (see
    /// `corridor_target`), puts stairs down at the centre of the last room
    /// and the start at the centre of the first, bombs the level open (see
    /// `bomb_level`; a level with a single open cell is not bombed) and
    /// turns the walls left over into water and grass (see
    /// `convert_islands`; all of it in `drunkards_level`). A snapshot is
    /// recorded at the start, after each try at a room, after each
    /// corridor, after the stairs and after the bombing.
    pub fn rooms_and_corridors(&mut self, max_rooms: i32, min_size: i32, max_size: i32)
        requires
            old(self).map.tiles_fit(),
            old(self).rooms@.len() == 0,
            1 <= max_rooms,
            1 <= min_size < max_size,
            max_size + 2 < old(self).map.size.0,
            max_size + 2 < old(self).map.size.1,
            old(self).map.size.0 * old(self).map.size.1 * 7 <= i32::MAX,
        ensures
            final(self).map.size == old(self).map.size,
            final(self).map.blocked@ == old(self).map.blocked@,
            final(self).map.fire_turns@ == old(self).map.fire_turns@,
            final(self).map.tile_content@ == old(self).map.tile_content@,
            reshaped(old(self).map.tiles@, final(self).map.tiles@),
            1 <= final(self).rooms@.len() <= max_rooms,
            rooms_ok(final(self).rooms@, old(self).map.size.0 as int, old(self).map.size.1 as int),
            forall|i: int| 0 <= i < final(self).rooms@.len() ==> {
                &&& min_size <= (#[trigger] final(self).rooms@[i]).x2 - final(self).rooms@[i].x1 < max_size
                &&& min_size <= final(self).rooms@[i].y2 - final(self).rooms@[i].y1 < max_size
            },
            ({
                let c = room_center(final(self).rooms@[0]);
                final(self).starting_position.ps@ == seq![Point { x: c.0 as i32, y: c.1 as i32 }]
            }),
            final(self).depth == old(self).depth,
            exists|dug: Seq<TileType>, b: Seq<TileType>| #[trigger] drunkards_level(old(self).map.tiles@, final(self).rooms@,
                old(self).map.size.0 as int, old(self).map.size.1 as int, dug, b, final(self).map.tiles@,
                final(self).history@.last()),
            history_grew(old(self).history@, final(self).history@, 3 + max_rooms + final(self).rooms@.len()),
    {
        let ghost m0 = self.map;
        let ghost h0 = self.history@;
        take_snapshot(&mut self.history, &self.map);
        let ghost h1 = self.history@;
        let w = self.map.size.0;
        let h = self.map.size.1;
        let ghost wi = w as int;
        let ghost hi = h as int;
        proof {
            assert(wi <= wi * hi && hi <= wi * hi) by (nonlinear_arith) requires wi >= 1, hi >= 1;
        }
        let mut rng = rng_new();
        self.place_rooms(max_rooms, min_size, max_size, &mut rng);
        self.dig_drunken_corridors();
        let ghost dug = self.map.tiles@;
        let last = self.rooms.len() - 1;
        let stairs = self.rooms[last].center();
        proof {
            assert(room_inside(self.rooms@[last as int], wi, hi));
            lemma_xy_idx_bound(wi, hi, stairs.0 as int, stairs.1 as int);
        }
        let stairs_idx = self.map.xy_idx((stairs.0 as usize, stairs.1 as usize));
        self.map.tiles.set(stairs_idx, TileType::StairsDown);
        let start = self.rooms[0].center();
        self.starting_position = Position { ps: vec![Point { x: start.0, y: start.1 }] };
        let ghost staired = self.map.tiles@;
        let ghost h2 = self.history@;
        take_snapshot(&mut self.history, &self.map);
        let open = open_cells(&self.map.tiles);
        if open.len() != 1 {
            self.bomb_level();
        }
        let ghost bombed_tiles = self.map.tiles@;
        let ghost h3 = self.history@;
        take_snapshot(&mut self.history, &self.map);
        let ghost h4 = self.history@;
        self.convert_islands();
        proof {
            let rs = self.rooms@;
            assert(staired =~= dug.update(stairs_at(rs, wi), TileType::StairsDown));
            assert(bombed_open(staired, bombed_tiles, wi));
            assert(h4.last().tiles@ == bombed_tiles);
            assert(drunkards_level(m0.tiles@, rs, wi, hi, dug, bombed_tiles, self.map.tiles@, self.history@.last()));
            assert forall|i: int| 0 <= i < h0.len() implies #[trigger] self.history@[i] == h0[i] by {
                assert(h1[i] == h0[i]);
                assert(h2[i] == h1[i]);
                assert(h3[i] == h2[i]);
                assert(h4[i] == h3[i]);
            }
        }
        proof {
            assert forall|k: int| 0 <= k < self.map.tiles@.len() implies {
                ||| #[trigger] self.map.tiles@[k] == m0.tiles@[k]
                ||| self.map.tiles@[k] == TileType::Floor
                ||| self.map.tiles@[k] == TileType::StairsDown
                ||| self.map.tiles@[k] == TileType::Water
                ||| self.map.tiles@[k] == TileType::Grass
            } by {
                assert(dug[k] == m0.tiles@[k] || dug[k] == TileType::Floor);
                assert(staired[k] == dug[k] || staired[k] == TileType::StairsDown);
                assert(bombed_tiles[k] == staired[k] || bombed_tiles[k] == TileType::Floor);
                if bombed_tiles[k] != TileType::Wall {
                    assert(self.map.tiles@[k] == bombed_tiles[k]);
                }
            }
        }
    }
}

} // verus!
