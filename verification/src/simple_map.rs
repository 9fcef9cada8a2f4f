//! A dungeon of rectangular rooms joined by straight corridors.

use vstd::prelude::*;
use crate::components::Position;
use crate::map::{TileMap, spec_xy_idx, lemma_xy_idx_bound};
use crate::map_builders::{Rect, apply_room_to_map, apply_horizontal_corridor, apply_vertical_corridor, room_tile, in_row, in_column, min_i, max_i};
use crate::rng::{rng_new, rng_range};
use crate::tiles::TileType;
use crate::snapshots::{history_grew, same_map, take_snapshot};
use crate::utils::{Point, div_trunc};

verus! {

/// Rooms that share no cell and do not touch, edges included.
pub open spec fn rooms_apart(a: Rect, b: Rect) -> bool {
    !(a.x1 <= b.x2 && a.x2 >= b.x1 && a.y1 <= b.y2 && a.y2 >= b.y1)
}

/// A room whose corners lie inside the border of a `w` by `h` map, at
/// least one cell wide and high.
pub open spec fn room_inside(r: Rect, w: int, h: int) -> bool {
    1 <= r.x1 < r.x2 <= w - 2 && 1 <= r.y1 < r.y2 <= h - 2
}

/// The middle cell of a room.
pub open spec fn room_center(r: Rect) -> (int, int) {
    (div_trunc(r.x1 + r.x2, 2), div_trunc(r.y1 + r.y2, 2))
}

/// Cell `k` of a map `w` cells wide lies on one of the four corridors
/// between `(x1, y1)` and `(x2, y2)`: along row `y1` and row `y2` between
/// the two columns, and along column `x1` and column `x2` between the two
/// rows.
pub open spec fn on_corridors(w: int, x1: int, y1: int, x2: int, y2: int, k: int) -> bool {
    ||| in_row(w, y1, min_i(x1, x2), max_i(x1, x2), k)
    ||| in_column(w, x2, min_i(y1, y2), max_i(y1, y2), k)
    ||| in_column(w, x1, min_i(y1, y2), max_i(y1, y2), k)
    ||| in_row(w, y2, min_i(x1, x2), max_i(x1, x2), k)
}

/// Cell `k` of a map `w` cells wide lies in `room`.
pub open spec fn carved(room: Rect, w: int, k: int) -> bool {
    room.x1 <= k % w < room.x2 && room.y1 <= k / w < room.y2
}

/// Cell `k` lies in one of `rooms`.
pub open spec fn in_rooms(rooms: Seq<Rect>, w: int, k: int) -> bool {
    exists|i: int| 0 <= i < rooms.len() && #[trigger] carved(rooms[i], w, k)
}

/// Cell `k` lies on the corridors joining room `i` to room `i - 1` (see
/// `on_corridors`, between their centres).
pub open spec fn joined(rooms: Seq<Rect>, w: int, i: int, k: int) -> bool {
    let a = room_center(rooms[i]);
    let b = room_center(rooms[i - 1]);
    on_corridors(w, a.0, a.1, b.0, b.1, k)
}

/// Cell `k` lies on the corridors joining one of the first `n` rooms to the
/// room before it.
pub open spec fn joins_before(rooms: Seq<Rect>, w: int, n: int, k: int) -> bool {
    exists|i: int| 1 <= i < n && #[trigger] joined(rooms, w, i, k)
}

/// What a simple level makes of cell `k` of `t0` with `rooms` on a map `w`
/// cells wide: stairs down at the centre of the last room, floor in the
/// rooms and on the corridors between each room and the one before it,
/// and the cell as it was elsewhere.
pub open spec fn simple_tile(t0: Seq<TileType>, rooms: Seq<Rect>, w: int, k: int) -> TileType {
    let last = room_center(rooms.last());
    if k == spec_xy_idx(w, last.0, last.1) {
        TileType::StairsDown
    } else if in_rooms(rooms, w, k) || joins_before(rooms, w, rooms.len() as int, k) {
        TileType::Floor
    } else {
        t0[k]
    }
}

/// Every cell is as it was or has become floor.
pub open spec fn dug_so_far(before: Seq<TileType>, tiles: Seq<TileType>) -> bool {
    &&& tiles.len() == before.len()
    &&& forall|k: int| 0 <= k < tiles.len() ==> #[trigger] tiles[k] == before[k] || tiles[k] == TileType::Floor
}

/// The rooms are inside the map and pairwise apart.
pub open spec fn rooms_ok(rooms: Seq<Rect>, w: int, h: int) -> bool {
    &&& forall|i: int| 0 <= i < rooms.len() ==> room_inside(#[trigger] rooms[i], w, h)
    &&& forall|i: int, j: int| 0 <= i < j < rooms.len() ==> rooms_apart(#[trigger] rooms[i], #[trigger] rooms[j])
}

/// A dungeon of rooms and corridors.
pub struct SimpleMapBuilder {
    pub map: TileMap,
    pub starting_position: Position,
    pub depth: i32,
    pub rooms: Vec<Rect>,
    pub history: Vec<TileMap>,
}

impl SimpleMapBuilder {
    /// A builder for a level `new_depth` deep on a map of `size` cells, all
    /// wall, starting at `(0, 0)`, with no rooms yet.
    pub fn new(new_depth: i32, size: (usize, usize)) -> (b: SimpleMapBuilder)
        requires
            size.0 * size.1 <= usize::MAX,
        ensures
            b.map.size == size,
            b.map.tiles@.len() == size.0 * size.1,
            forall|i: int| 0 <= i < b.map.tiles@.len() ==> #[trigger] b.map.tiles@[i] == TileType::Wall,
            b.starting_position.ps@ == seq![Point { x: 0, y: 0 }],
            b.depth == new_depth,
            b.rooms@.len() == 0,
            b.history@.len() == 0,
    {
        let mut map = TileMap::new(size);
        map.tiles = vec![TileType::Wall; size.0 * size.1];
        SimpleMapBuilder {
            map,
            starting_position: Position { ps: vec![Point { x: 0, y: 0 }] },
            depth: new_depth,
            rooms: Vec::new(),
            history: Vec::new(),
        }
    }

    /// Builds the level: ten tries at a room with sides of 4 to 7 cells.
    pub fn build_map(&mut self)
        requires
            old(self).map.tiles_fit(),
            11 <= old(self).map.size.0 <= 0x3fff_ffff,
            11 <= old(self).map.size.1 <= 0x3fff_ffff,
            old(self).rooms@.len() == 0,
        ensures
            final(self).map.size == old(self).map.size,
            final(self).map.blocked@ == old(self).map.blocked@,
            final(self).map.fire_turns@ == old(self).map.fire_turns@,
            final(self).map.tile_content@ == old(self).map.tile_content@,
            final(self).map.tiles@.len() == old(self).map.tiles@.len(),
            1 <= final(self).rooms@.len() <= 10,
            rooms_ok(final(self).rooms@, old(self).map.size.0 as int, old(self).map.size.1 as int),
            forall|i: int| 0 <= i < final(self).rooms@.len() ==> {
                &&& 4 <= (#[trigger] final(self).rooms@[i]).x2 - final(self).rooms@[i].x1 < 8
                &&& 4 <= final(self).rooms@[i].y2 - final(self).rooms@[i].y1 < 8
            },
            forall|k: int| 0 <= k < old(self).map.tiles@.len() ==> #[trigger] final(self).map.tiles@[k]
                == simple_tile(old(self).map.tiles@, final(self).rooms@, old(self).map.size.0 as int, k),
            ({
                let c = room_center(final(self).rooms@[0]);
                final(self).starting_position.ps@ == seq![Point { x: c.0 as i32, y: c.1 as i32 }]
            }),
            final(self).depth == old(self).depth,
            history_grew(old(self).history@, final(self).history@, 11 + final(self).rooms@.len() as int),
            same_map(final(self).history@.last(), final(self).map),
    {
        self.rooms_and_corridors(10, 4, 8);
    }

    /// Tries `max_rooms` times to place a room of random size (sides from
    /// `min_size` up to, not including, `max_size`) at a random place inside
    /// the border; a room that touches or overlaps one already placed is
    /// dropped, any other is dug out as floor and kept. Each room is then
    /// joined to the one before it by corridors along both rows and both
    /// columns of their centres. Stairs down go at the centre of the last
    /// room and the start at the centre of the first.
    pub fn rooms_and_corridors(&mut self, max_rooms: i32, min_size: i32, max_size: i32)
        requires
            old(self).map.tiles_fit(),
            old(self).rooms@.len() == 0,
            1 <= max_rooms,
            1 <= min_size < max_size,
            max_size + 2 < old(self).map.size.0 <= 0x3fff_ffff,
            max_size + 2 < old(self).map.size.1 <= 0x3fff_ffff,
        ensures
            final(self).map.tiles_fit(),
            final(self).map.size == old(self).map.size,
            final(self).map.blocked@ == old(self).map.blocked@,
            final(self).map.fire_turns@ == old(self).map.fire_turns@,
            final(self).map.tile_content@ == old(self).map.tile_content@,
            1 <= final(self).rooms@.len() <= max_rooms,
            rooms_ok(final(self).rooms@, old(self).map.size.0 as int, old(self).map.size.1 as int),
            forall|i: int| 0 <= i < final(self).rooms@.len() ==> {
                &&& min_size <= (#[trigger] final(self).rooms@[i]).x2 - final(self).rooms@[i].x1 < max_size
                &&& min_size <= final(self).rooms@[i].y2 - final(self).rooms@[i].y1 < max_size
            },
            ({
                let w = old(self).map.size.0 as int;
                let last = room_center(final(self).rooms@.last());
                let stairs = spec_xy_idx(w, last.0, last.1);
                &&& 0 <= stairs < final(self).map.tiles@.len()
                &&& final(self).map.tiles@[stairs] == TileType::StairsDown
                &&& forall|k: int| 0 <= k < final(self).map.tiles@.len() && k != stairs ==> #[trigger] final(self).map.tiles@[k]
                    == old(self).map.tiles@[k] || final(self).map.tiles@[k] == TileType::Floor
            }),
            final(self).map.tiles@.len() == old(self).map.tiles@.len(),
            forall|k: int| 0 <= k < old(self).map.tiles@.len() ==> #[trigger] final(self).map.tiles@[k]
                == simple_tile(old(self).map.tiles@, final(self).rooms@, old(self).map.size.0 as int, k),
            ({
                let c = room_center(final(self).rooms@[0]);
                final(self).starting_position.ps@ == seq![Point { x: c.0 as i32, y: c.1 as i32 }]
            }),
            final(self).depth == old(self).depth,
            history_grew(old(self).history@, final(self).history@, max_rooms + final(self).rooms@.len() + 1),
            same_map(final(self).history@.last(), final(self).map),
    {
        let ghost h0 = self.history@;
        take_snapshot(&mut self.history, &self.map);
        let w = self.map.size.0;
        let h = self.map.size.1;
        let ghost wi = w as int;
        let ghost hi = h as int;
        let ghost m0 = self.map;
        let mut rng = rng_new();
        let mut n: i32 = 0;
        while n < max_rooms
            invariant
                self.map.tiles_fit(),
                self.map.size == m0.size,
                self.map.blocked@ == m0.blocked@,
                self.map.fire_turns@ == m0.fire_turns@,
                self.map.tile_content@ == m0.tile_content@,
                w == m0.size.0,
                h == m0.size.1,
                wi == w,
                hi == h,
                max_size + 2 < w <= 0x3fff_ffff,
                max_size + 2 < h <= 0x3fff_ffff,
                1 <= min_size < max_size,
                0 <= n <= max_rooms,
                n > 0 ==> self.rooms@.len() >= 1,
                self.rooms@.len() <= n,
                rooms_ok(self.rooms@, wi, hi),
                forall|i: int| 0 <= i < self.rooms@.len() ==> {
                    &&& min_size <= (#[trigger] self.rooms@[i]).x2 - self.rooms@[i].x1 < max_size
                    &&& min_size <= self.rooms@[i].y2 - self.rooms@[i].y1 < max_size
                },
                dug_so_far(m0.tiles@, self.map.tiles@),
                forall|k: int| 0 <= k < m0.tiles@.len() ==> #[trigger] self.map.tiles@[k]
                    == if in_rooms(self.rooms@, wi, k) { TileType::Floor } else { m0.tiles@[k] },
                self.depth == old(self).depth,
                history_grew(h0, self.history@, n + 1),
                self.starting_position == old(self).starting_position,
            decreases max_rooms - n,
        {
            let rw = rng_range(&mut rng, min_size, max_size);
            let rh = rng_range(&mut rng, min_size, max_size);
            let x = rng_range(&mut rng, 1, w as i32 - rw - 1);
            let y = rng_range(&mut rng, 1, h as i32 - rh - 1);
            let new_room = Rect::new(x, y, rw, rh);
            let mut place_room = true;
            let mut j: usize = 0;
            while j < self.rooms.len()
                invariant
                    j <= self.rooms@.len(),
                    self.rooms@.len() == 0 ==> place_room,
                    place_room ==> forall|k: int| 0 <= k < j ==> rooms_apart(new_room, #[trigger] self.rooms@[k]),
                decreases self.rooms@.len() - j,
            {
                if new_room.intersect(&self.rooms[j]) {
                    place_room = false;
                }
                j += 1;
            }
            if place_room {
                let ghost before = self.map.tiles@;
                let ghost mb = self.map;
                apply_room_to_map(&mut self.map, &new_room, TileType::Floor, true);
                proof {
                    assert forall|k: int| 0 <= k < self.map.tiles@.len() implies #[trigger] self.map.tiles@[k] == m0.tiles@[k]
                        || self.map.tiles@[k] == TileType::Floor by {
                        assert(self.map.tiles@[k] == room_tile(mb, new_room, TileType::Floor, true, k));
                        assert(before[k] == m0.tiles@[k] || before[k] == TileType::Floor);
                    }
                }
                let ghost old_rooms = self.rooms@;
                self.rooms.push(new_room);
                proof {
                    assert forall|a: int, b: int| 0 <= a < b < self.rooms@.len() implies rooms_apart(#[trigger] self.rooms@[a], #[trigger] self.rooms@[b]) by {
                        if b == old_rooms.len() {
                            assert(rooms_apart(new_room, old_rooms[a]));
                        } else {
                            assert(rooms_apart(old_rooms[a], old_rooms[b]));
                        }
                    }
                    assert(room_inside(new_room, wi, hi));
                    assert(crate::map_builders::spec_rect_in_bounds(mb, new_room));
                    assert forall|k: int| 0 <= k < m0.tiles@.len() implies #[trigger] self.map.tiles@[k]
                        == if in_rooms(self.rooms@, wi, k) { TileType::Floor } else { m0.tiles@[k] } by {
                        assert(self.map.tiles@[k] == room_tile(mb, new_room, TileType::Floor, true, k));
                        if in_rooms(old_rooms, wi, k) {
                            let q = choose|q: int| 0 <= q < old_rooms.len() && #[trigger] carved(old_rooms[q], wi, k);
                            assert(self.rooms@[q] == old_rooms[q]);
                            assert(carved(self.rooms@[q], wi, k));
                        }
                        if carved(new_room, wi, k) {
                            assert(carved(self.rooms@[old_rooms.len() as int], wi, k));
                        }
                        if in_rooms(self.rooms@, wi, k) && !carved(new_room, wi, k) {
                            let q = choose|q: int| 0 <= q < self.rooms@.len() && #[trigger] carved(self.rooms@[q], wi, k);
                            assert(q < old_rooms.len());
                            assert(carved(old_rooms[q], wi, k));
                        }
                    }
                }
            }
            let ghost hb = self.history@;
            take_snapshot(&mut self.history, &self.map);
            proof {
                assert forall|q: int| 0 <= q < h0.len() implies #[trigger] self.history@[q] == h0[q] by {
                    assert(self.history@[q] == hb[q]);
                }
            }
            n += 1;
        }
        let mut i: usize = 1;
        while i < self.rooms.len()
            invariant
                self.map.tiles_fit(),
                self.map.size == m0.size,
                self.map.blocked@ == m0.blocked@,
                self.map.fire_turns@ == m0.fire_turns@,
                self.map.tile_content@ == m0.tile_content@,
                w == m0.size.0,
                h == m0.size.1,
                wi == w,
                hi == h,
                max_size + 2 < w <= 0x3fff_ffff,
                max_size + 2 < h <= 0x3fff_ffff,
                1 <= i <= self.rooms@.len(),
                1 <= self.rooms@.len() <= max_rooms,
                rooms_ok(self.rooms@, wi, hi),
                forall|k: int| 0 <= k < self.rooms@.len() ==> {
                    &&& min_size <= (#[trigger] self.rooms@[k]).x2 - self.rooms@[k].x1 < max_size
                    &&& min_size <= self.rooms@[k].y2 - self.rooms@[k].y1 < max_size
                },
                dug_so_far(m0.tiles@, self.map.tiles@),
                self.map.tiles@.len() == m0.tiles@.len(),
                forall|k: int| 0 <= k < m0.tiles@.len() ==> #[trigger] self.map.tiles@[k]
                    == if in_rooms(self.rooms@, wi, k) || joins_before(self.rooms@, wi, i as int, k) { TileType::Floor } else { m0.tiles@[k] },
                self.depth == old(self).depth,
                history_grew(h0, self.history@, max_rooms + i),
                self.starting_position == old(self).starting_position,
            decreases self.rooms@.len() - i,
        {
            let (x1, y1) = self.rooms[i].center();
            let (x2, y2) = self.rooms[i - 1].center();
            proof {
                assert(room_inside(self.rooms@[i as int], wi, hi));
                assert(room_inside(self.rooms@[i - 1], wi, hi));
                lemma_xy_idx_bound(wi, hi, max_i(x1 as int, x2 as int), max_i(y1 as int, y2 as int));
                crate::map_builders::lemma_index_monotone_in_row(wi, x1 as int, y1 as int, max_i(y1 as int, y2 as int));
                crate::map_builders::lemma_index_monotone_in_row(wi, x2 as int, y1 as int, max_i(y1 as int, y2 as int));
                crate::map_builders::lemma_index_monotone_in_row(wi, max_i(x1 as int, x2 as int), y2 as int, max_i(y1 as int, y2 as int));
                crate::map_builders::lemma_index_monotone_in_row(wi, max_i(x1 as int, x2 as int), y1 as int, max_i(y1 as int, y2 as int));
            }
            let ghost before = self.map.tiles@;
            self.dig_corridors(x1, y1, x2, y2);
            proof {
                let rs = self.rooms@;
                assert((x1 as int, y1 as int) == room_center(rs[i as int]));
                assert((x2 as int, y2 as int) == room_center(rs[i - 1]));
                assert forall|k: int| 0 <= k < m0.tiles@.len() implies #[trigger] self.map.tiles@[k]
                    == if in_rooms(rs, wi, k) || joins_before(rs, wi, i + 1, k) { TileType::Floor } else { m0.tiles@[k] } by {
                    if joined(rs, wi, i as int, k) {
                        assert(joins_before(rs, wi, i + 1, k));
                    }
                    if joins_before(rs, wi, i as int, k) {
                        let q = choose|q: int| 1 <= q < i && #[trigger] joined(rs, wi, q, k);
                        assert(joins_before(rs, wi, i + 1, k));
                    }
                    if joins_before(rs, wi, i + 1, k) && !joined(rs, wi, i as int, k) {
                        let q = choose|q: int| 1 <= q < i + 1 && #[trigger] joined(rs, wi, q, k);
                        assert(q < i);
                        assert(joins_before(rs, wi, i as int, k));
                    }
                }
            }
            let ghost hb = self.history@;
            take_snapshot(&mut self.history, &self.map);
            proof {
                assert forall|q: int| 0 <= q < h0.len() implies #[trigger] self.history@[q] == h0[q] by {
                    assert(self.history@[q] == hb[q]);
                }
            }
            i += 1;
        }
        let start = self.rooms[0].center();
        self.starting_position = Position { ps: vec![Point { x: start.0, y: start.1 }] };
        let last = self.rooms.len() - 1;
        let stairs = self.rooms[last].center();
        proof {
            assert(room_inside(self.rooms@[last as int], wi, hi));
            lemma_xy_idx_bound(wi, hi, stairs.0 as int, stairs.1 as int);
        }
        let stairs_idx = self.map.xy_idx((stairs.0 as usize, stairs.1 as usize));
        let ghost pre = self.map.tiles@;
        self.map.tiles.set(stairs_idx, TileType::StairsDown);
        proof {
            assert forall|k: int| 0 <= k < self.map.tiles@.len() && k != stairs_idx as int implies #[trigger] self.map.tiles@[k]
                == m0.tiles@[k] || self.map.tiles@[k] == TileType::Floor by {
                assert(pre[k] == m0.tiles@[k] || pre[k] == TileType::Floor);
            }
            assert forall|k: int| 0 <= k < m0.tiles@.len() implies #[trigger] self.map.tiles@[k]
                == simple_tile(m0.tiles@, self.rooms@, wi, k) by {
                assert(pre[k] == if in_rooms(self.rooms@, wi, k) || joins_before(self.rooms@, wi, self.rooms@.len() as int, k) {
                    TileType::Floor
                } else {
                    m0.tiles@[k]
                });
            }
        }
        let ghost hb = self.history@;
        take_snapshot(&mut self.history, &self.map);
        proof {
            assert forall|q: int| 0 <= q < h0.len() implies #[trigger] self.history@[q] == h0[q] by {
                assert(self.history@[q] == hb[q]);
            }
        }
    }

    /// Digs the four corridors between centres `(x1, y1)` and `(x2, y2)`
    /// (see `on_corridors`): their cells become floor, the rest stays.
    fn dig_corridors(&mut self, x1: i32, y1: i32, x2: i32, y2: i32)
        requires
            old(self).map.tiles_fit(),
            0 <= x1,
            0 <= y1,
            0 <= x2,
            0 <= y2,
            spec_xy_idx(old(self).map.size.0 as int, max_i(x1 as int, x2 as int), max_i(y1 as int, y2 as int)) < old(self).map.tiles@.len(),
            spec_xy_idx(old(self).map.size.0 as int, x1 as int, max_i(y1 as int, y2 as int)) < old(self).map.tiles@.len(),
            spec_xy_idx(old(self).map.size.0 as int, x2 as int, max_i(y1 as int, y2 as int)) < old(self).map.tiles@.len(),
            spec_xy_idx(old(self).map.size.0 as int, max_i(x1 as int, x2 as int), y1 as int) < old(self).map.tiles@.len(),
            spec_xy_idx(old(self).map.size.0 as int, max_i(x1 as int, x2 as int), y2 as int) < old(self).map.tiles@.len(),
        ensures
            final(self).map.tiles_fit(),
            final(self).map.size == old(self).map.size,
            final(self).map.blocked@ == old(self).map.blocked@,
            final(self).map.fire_turns@ == old(self).map.fire_turns@,
            final(self).map.tile_content@ == old(self).map.tile_content@,
            final(self).map.tiles@.len() == old(self).map.tiles@.len(),
            forall|k: int| 0 <= k < old(self).map.tiles@.len() ==> #[trigger] final(self).map.tiles@[k] == if on_corridors(
                old(self).map.size.0 as int, x1 as int, y1 as int, x2 as int, y2 as int, k) {
                TileType::Floor
            } else {
                old(self).map.tiles@[k]
            },
            final(self).rooms@ == old(self).rooms@,
            final(self).depth == old(self).depth,
            final(self).history@ == old(self).history@,
            final(self).starting_position == old(self).starting_position,
    {
        let ghost t0 = self.map.tiles@;
        apply_horizontal_corridor(&mut self.map, x1, x2, y1);
        let ghost t1 = self.map.tiles@;
        apply_vertical_corridor(&mut self.map, x2, y1, y2);
        let ghost t2 = self.map.tiles@;
        apply_vertical_corridor(&mut self.map, x1, y1, y2);
        let ghost t3 = self.map.tiles@;
        apply_horizontal_corridor(&mut self.map, x1, x2, y2);
        proof {
            assert forall|k: int| 0 <= k < t0.len() implies #[trigger] self.map.tiles@[k] == if on_corridors(
                self.map.size.0 as int, x1 as int, y1 as int, x2 as int, y2 as int, k) {
                TileType::Floor
            } else {
                t0[k]
            } by {
                assert(t1[k] == t0[k] || t1[k] == TileType::Floor);
                assert(t2[k] == t1[k] || t2[k] == TileType::Floor);
                assert(t3[k] == t2[k] || t3[k] == TileType::Floor);
            }
        }
    }
}

} // verus!
