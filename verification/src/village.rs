//! Open maps: the arena, a village by a river, and a world of villages.

use vstd::prelude::*;
use crate::snapshots::{history_grew, same_map, take_snapshot, take_tile_snapshot, tile_history_grew};
use crate::components::Position;
use crate::map::{TileMap, spec_xy_idx, lemma_xy_idx_bound, law_xy_idx_round_trip};
use crate::tiles::TileType;
use crate::utils::Point;

verus! {

/// Cell index `k` of a map `w` by `h` is on its outer ring.
pub open spec fn on_border(w: int, h: int, k: int) -> bool {
    k % w == 0 || k % w == w - 1 || k / w == 0 || k / w == h - 1
}

/// An arena: open floor walled in.
pub struct AernaBuilder {
    pub map: TileMap,
    pub starting_position: Position,
    pub history: Vec<TileMap>,
}

impl AernaBuilder {
    /// A builder for a map of `size` cells, all floor, starting at `(0, 0)`.
    pub fn new(size: (usize, usize)) -> (b: AernaBuilder)
        requires
            size.0 * size.1 <= usize::MAX,
        ensures
            b.map.size == size,
            b.map.tiles@.len() == size.0 * size.1,
            forall|i: int| 0 <= i < b.map.tiles@.len() ==> #[trigger] b.map.tiles@[i] == TileType::Floor,
            b.starting_position.ps@ == seq![Point { x: 0, y: 0 }],
            b.history@.len() == 0,
    {
        let mut map = TileMap::new(size);
        map.tiles = vec![TileType::Floor; size.0 * size.1];
        AernaBuilder { map, starting_position: Position { ps: vec![Point { x: 0, y: 0 }] }, history: Vec::new() }
    }

    /// Walls in the map's outer ring, then a snapshot of the map; the start
    /// is the middle of the map.
    pub fn build(&mut self)
        requires
            old(self).map.tiles_fit(),
            1 <= old(self).map.size.0 <= i32::MAX,
            1 <= old(self).map.size.1 <= i32::MAX,
        ensures
            final(self).map.tiles_fit(),
            final(self).map.size == old(self).map.size,
            final(self).map.blocked@ == old(self).map.blocked@,
            final(self).map.fire_turns@ == old(self).map.fire_turns@,
            final(self).map.tile_content@ == old(self).map.tile_content@,
            forall|k: int| 0 <= k < final(self).map.tiles@.len() ==> #[trigger] final(self).map.tiles@[k] == if on_border(
                old(self).map.size.0 as int, old(self).map.size.1 as int, k) {
                TileType::Wall
            } else {
                old(self).map.tiles@[k]
            },
            final(self).starting_position.ps@ == seq![Point { x: (old(self).map.size.0 / 2) as i32, y: (old(self).map.size.1 / 2) as i32 }],
            history_grew(old(self).history@, final(self).history@, 1),
            same_map(final(self).history@.last(), final(self).map),
    {
        let w = self.map.size.0;
        let h = self.map.size.1;
        let ghost wi = w as int;
        let ghost hi = h as int;
        let ghost m0 = self.map;
        let mut y: usize = 0;
        while y < h
            invariant
                self.map.tiles_fit(),
                self.map.size == m0.size,
                self.map.blocked@ == m0.blocked@,
                self.map.fire_turns@ == m0.fire_turns@,
                self.map.tile_content@ == m0.tile_content@,
                self.history@ == old(self).history@,
                w == m0.size.0,
                h == m0.size.1,
                wi == w,
                hi == h,
                1 <= w,
                1 <= h,
                y <= h,
                forall|k: int| 0 <= k < self.map.tiles@.len() ==> #[trigger] self.map.tiles@[k] == if on_border(wi, hi, k) && k / wi < y {
                    TileType::Wall
                } else {
                    m0.tiles@[k]
                },
            decreases h - y,
        {
            let mut x: usize = 0;
            while x < w
                invariant
                    self.map.tiles_fit(),
                    self.map.size == m0.size,
                    self.map.blocked@ == m0.blocked@,
                    self.map.fire_turns@ == m0.fire_turns@,
                    self.map.tile_content@ == m0.tile_content@,
                    self.history@ == old(self).history@,
                    w == m0.size.0,
                    h == m0.size.1,
                    wi == w,
                    hi == h,
                    1 <= w,
                    1 <= h,
                    y < h,
                    x <= w,
                    forall|k: int| 0 <= k < self.map.tiles@.len() ==> #[trigger] self.map.tiles@[k] == if on_border(wi, hi, k) && (k / wi < y
                        || (k / wi == y && k % wi < x)) {
                        TileType::Wall
                    } else {
                        m0.tiles@[k]
                    },
                decreases w - x,
            {
                proof {
                    lemma_xy_idx_bound(wi, hi, x as int, y as int);
                    law_xy_idx_round_trip(wi, x as int, y as int, 0);
                }
                let idx = self.map.xy_idx((x, y));
                if x == 0 || x == w - 1 || y == 0 || y == h - 1 {
                    self.map.tiles.set(idx, TileType::Wall);
                }
                proof {
                    assert forall|k: int| 0 <= k < self.map.tiles@.len() implies #[trigger] self.map.tiles@[k] == if on_border(wi, hi, k)
                        && (k / wi < y || (k / wi == y && k % wi < x + 1)) {
                        TileType::Wall
                    } else {
                        m0.tiles@[k]
                    } by {
                        if k != idx as int {
                            law_xy_idx_round_trip(wi, 0, 0, k);
                            if k / wi == y && k % wi == x {
                                assert(k == spec_xy_idx(wi, x as int, y as int));
                            }
                        }
                    }
                }
                x += 1;
            }
            y += 1;
        }
        proof {
            assert forall|k: int| 0 <= k < self.map.tiles@.len() implies #[trigger] self.map.tiles@[k] == if on_border(wi, hi, k) {
                TileType::Wall
            } else {
                m0.tiles@[k]
            } by {
                crate::map_builders::lemma_row_below_map(wi, hi, k);
            }
        }
        take_snapshot(&mut self.history, &self.map);
        self.starting_position = Position { ps: vec![Point { x: (w / 2) as i32, y: (h / 2) as i32 }] };
    }
}

/// Cell `(x, y)` of a map `w` by `h` is off its border.
pub open spec fn inside_border(w: int, h: int, x: int, y: int) -> bool {
    1 <= x < w - 1 && 1 <= y < h - 1
}

/// The terrain of cell `(x, y)` of a village map `w` by `h` that was `old`
/// before: inside the border, a river in the rows between `h - 10` and
/// `h - 3` (both excluded) and grass elsewhere.
pub open spec fn village_tile(w: int, h: int, x: int, y: int, old: TileType) -> TileType {
    if inside_border(w, h, x, y) {
        if h - 10 < y < h - 3 { TileType::Water } else { TileType::Grass }
    } else {
        old
    }
}

/// A village of grass by a river.
pub struct VillageBuilder {
    pub map: TileMap,
    pub starting_position: Position,
    pub history: Vec<TileMap>,
}

impl VillageBuilder {
    /// A builder for a map of `size` cells, all wall, starting at `(0, 0)`.
    pub fn new(size: (usize, usize)) -> (b: VillageBuilder)
        requires
            size.0 * size.1 <= usize::MAX,
        ensures
            b.map.size == size,
            b.map.tiles@.len() == size.0 * size.1,
            forall|i: int| 0 <= i < b.map.tiles@.len() ==> #[trigger] b.map.tiles@[i] == TileType::Wall,
            b.starting_position.ps@ == seq![Point { x: 0, y: 0 }],
            b.history@.len() == 0,
    {
        let mut map = TileMap::new(size);
        map.tiles = vec![TileType::Wall; size.0 * size.1];
        VillageBuilder { map, starting_position: Position { ps: vec![Point { x: 0, y: 0 }] }, history: Vec::new() }
    }

    /// Grass inside the border with a river across, in the rows between
    /// `h - 10` and `h - 3` (both excluded), then a snapshot of the map; the
    /// start is the middle of the map.
    pub fn build(&mut self)
        requires
            old(self).map.tiles_fit(),
            1 <= old(self).map.size.0 <= i32::MAX,
            1 <= old(self).map.size.1 <= i32::MAX,
        ensures
            final(self).map.tiles_fit(),
            final(self).map.size == old(self).map.size,
            final(self).map.blocked@ == old(self).map.blocked@,
            final(self).map.fire_turns@ == old(self).map.fire_turns@,
            final(self).map.tile_content@ == old(self).map.tile_content@,
            forall|k: int| 0 <= k < final(self).map.tiles@.len() ==> #[trigger] final(self).map.tiles@[k] == village_tile(
                old(self).map.size.0 as int, old(self).map.size.1 as int,
                k % (old(self).map.size.0 as int), k / (old(self).map.size.0 as int), old(self).map.tiles@[k]),
            final(self).starting_position.ps@ == seq![Point { x: (old(self).map.size.0 / 2) as i32, y: (old(self).map.size.1 / 2) as i32 }],
            history_grew(old(self).history@, final(self).history@, 1),
            same_map(final(self).history@.last(), final(self).map),
    {
        fill_inside(&mut self.map, true);
        take_snapshot(&mut self.history, &self.map);
        let w = self.map.size.0;
        let h = self.map.size.1;
        self.starting_position = Position { ps: vec![Point { x: (w / 2) as i32, y: (h / 2) as i32 }] };
    }
}

/// The terrain `fill_inside` gives cell `(x, y)` (with the river or not).
pub open spec fn inside_tile(w: int, h: int, x: int, y: int, old: TileType, river: bool) -> TileType {
    if river { village_tile(w, h, x, y, old) } else if inside_border(w, h, x, y) { TileType::Grass } else { old }
}

/// Fills the cells inside the border with grass (and, with `river`, the
/// river rows with water), row by row.
fn fill_inside(map: &mut TileMap, river: bool)
    requires
        old(map).tiles_fit(),
        1 <= old(map).size.0 <= i32::MAX,
        1 <= old(map).size.1 <= i32::MAX,
    ensures
        final(map).tiles_fit(),
        final(map).size == old(map).size,
        final(map).blocked@ == old(map).blocked@,
        final(map).fire_turns@ == old(map).fire_turns@,
        final(map).tile_content@ == old(map).tile_content@,
        forall|k: int| 0 <= k < final(map).tiles@.len() ==> #[trigger] final(map).tiles@[k] == inside_tile(
            old(map).size.0 as int, old(map).size.1 as int,
            k % (old(map).size.0 as int), k / (old(map).size.0 as int), old(map).tiles@[k], river),
{
    let w = map.size.0;
    let h = map.size.1;
    let ghost wi = w as int;
    let ghost hi = h as int;
    let ghost m0 = *map;
    let mut y: usize = 1;
    while y + 1 < h
        invariant
            map.tiles_fit(),
            map.size == m0.size,
            map.blocked@ == m0.blocked@,
            map.fire_turns@ == m0.fire_turns@,
            map.tile_content@ == m0.tile_content@,
            w == m0.size.0,
            h == m0.size.1,
            wi == w,
            hi == h,
            1 <= w <= i32::MAX,
            1 <= h <= i32::MAX,
            1 <= y <= h,
            forall|k: int| 0 <= k < map.tiles@.len() ==> #[trigger] map.tiles@[k] == if k / wi < y {
                inside_tile(wi, hi, k % wi, k / wi, m0.tiles@[k], river)
            } else {
                m0.tiles@[k]
            },
        decreases h - y,
    {
        let mut x: usize = 1;
        while x + 1 < w
            invariant
                map.tiles_fit(),
                map.size == m0.size,
                map.blocked@ == m0.blocked@,
                map.fire_turns@ == m0.fire_turns@,
                map.tile_content@ == m0.tile_content@,
                w == m0.size.0,
                h == m0.size.1,
                wi == w,
                hi == h,
                1 <= w <= i32::MAX,
                1 <= h <= i32::MAX,
                1 <= y,
                y + 1 < h,
                1 <= x <= w,
                forall|k: int| 0 <= k < map.tiles@.len() ==> #[trigger] map.tiles@[k] == if k / wi < y || (k / wi == y && k % wi < x) {
                    inside_tile(wi, hi, k % wi, k / wi, m0.tiles@[k], river)
                } else {
                    m0.tiles@[k]
                },
            decreases w - x,
        {
            proof {
                lemma_xy_idx_bound(wi, hi, x as int, y as int);
                law_xy_idx_round_trip(wi, x as int, y as int, 0);
            }
            let idx = map.xy_idx((x, y));
            let tile = if river && h < y + 10 && y + 3 < h { TileType::Water } else { TileType::Grass };
            map.tiles.set(idx, tile);
            proof {
                assert forall|k: int| 0 <= k < map.tiles@.len() implies #[trigger] map.tiles@[k] == if k / wi < y || (k / wi == y && k % wi < x + 1) {
                    inside_tile(wi, hi, k % wi, k / wi, m0.tiles@[k], river)
                } else {
                    m0.tiles@[k]
                } by {
                    if k != idx as int {
                        law_xy_idx_round_trip(wi, 0, 0, k);
                        if k / wi == y && k % wi == x {
                            assert(k == spec_xy_idx(wi, x as int, y as int));
                        }
                    }
                }
            }
            x += 1;
        }
        proof {
            assert forall|k: int| 0 <= k < map.tiles@.len() implies #[trigger] map.tiles@[k] == if k / wi < y + 1 {
                inside_tile(wi, hi, k % wi, k / wi, m0.tiles@[k], river)
            } else {
                m0.tiles@[k]
            } by {
                law_xy_idx_round_trip(wi, 0, 0, k);
            }
        }
        y += 1;
    }
    proof {
        assert forall|k: int| 0 <= k < map.tiles@.len() implies #[trigger] map.tiles@[k] == inside_tile(wi, hi, k % wi, k / wi, m0.tiles@[k], river) by {
            law_xy_idx_round_trip(wi, 0, 0, k);
            crate::map_builders::lemma_row_below_map(wi, hi, k);
        }
    }
}

/// The width of a village.
pub const VILLAGE_WIDTH: usize = 150;

/// The height of a village.
pub const VILLAGE_HEIGHT: usize = 80;

/// Cell index `k` of a map `w` wide lies in the village block whose top
/// left corner is `(0, y0)`.
pub open spec fn in_block(w: int, y0: int, k: int) -> bool {
    k % w < VILLAGE_WIDTH && y0 <= k / w < y0 + VILLAGE_HEIGHT
}

/// The index in a village map of the cell of block `(0, y0)` that is cell
/// `k` of a map `w` wide.
pub open spec fn block_index(w: int, y0: int, k: int) -> int {
    (k / w - y0) * VILLAGE_WIDTH + k % w
}

/// Copies `village` (a map `VILLAGE_WIDTH` by `VILLAGE_HEIGHT`) onto
/// `world` with its top left corner at `(0, y0)`.
fn stamp(world: &mut TileMap, village: &TileMap, y0: usize)
    requires
        old(world).tiles_fit(),
        VILLAGE_WIDTH <= old(world).size.0 <= i32::MAX,
        old(world).size.1 <= i32::MAX,
        y0 + VILLAGE_HEIGHT <= old(world).size.1,
        village.size == (VILLAGE_WIDTH, VILLAGE_HEIGHT),
        village.tiles_fit(),
    ensures
        final(world).tiles_fit(),
        final(world).size == old(world).size,
        final(world).blocked@ == old(world).blocked@,
        final(world).fire_turns@ == old(world).fire_turns@,
        final(world).tile_content@ == old(world).tile_content@,
        forall|k: int| 0 <= k < final(world).tiles@.len() ==> #[trigger] final(world).tiles@[k] == if in_block(
            old(world).size.0 as int, y0 as int, k) {
            village.tiles@[block_index(old(world).size.0 as int, y0 as int, k)]
        } else {
            old(world).tiles@[k]
        },
{
    let w = world.size.0;
    let ghost wi = w as int;
    let ghost hi = world.size.1 as int;
    let ghost m0 = *world;
    let n = village.tiles.len();
    let mut i: usize = 0;
    while i < n
        invariant
            world.tiles_fit(),
            world.size == m0.size,
            world.blocked@ == m0.blocked@,
            world.fire_turns@ == m0.fire_turns@,
            world.tile_content@ == m0.tile_content@,
            w == m0.size.0,
            wi == w,
            hi == m0.size.1,
            VILLAGE_WIDTH <= w <= i32::MAX,
            hi <= i32::MAX,
            y0 + VILLAGE_HEIGHT <= hi,
            village.size == (VILLAGE_WIDTH, VILLAGE_HEIGHT),
            village.tiles_fit(),
            n == VILLAGE_WIDTH * VILLAGE_HEIGHT,
            i <= n,
            forall|k: int| 0 <= k < world.tiles@.len() ==> #[trigger] world.tiles@[k] == if in_block(wi, y0 as int, k)
                && block_index(wi, y0 as int, k) < i {
                village.tiles@[block_index(wi, y0 as int, k)]
            } else {
                m0.tiles@[k]
            },
        decreases n - i,
    {
        let pos = village.idx_point(i);
        proof {
            law_xy_idx_round_trip(VILLAGE_WIDTH as int, 0, 0, i as int);
            assert(i / VILLAGE_WIDTH < VILLAGE_HEIGHT) by {
                crate::map_builders::lemma_row_below_map(VILLAGE_WIDTH as int, VILLAGE_HEIGHT as int, i as int);
            }
            lemma_xy_idx_bound(wi, hi, pos.x as int, y0 + pos.y);
            law_xy_idx_round_trip(wi, pos.x as int, y0 + pos.y, 0);
        }
        let target = Point::new(pos.x, y0 as i32 + pos.y);
        let t = world.point_idx(target);
        world.tiles.set(t, village.tiles[i]);
        proof {
            assert(block_index(wi, y0 as int, t as int) == i);
            assert forall|k: int| 0 <= k < world.tiles@.len() implies #[trigger] world.tiles@[k] == if in_block(wi, y0 as int, k)
                && block_index(wi, y0 as int, k) < i + 1 {
                village.tiles@[block_index(wi, y0 as int, k)]
            } else {
                m0.tiles@[k]
            } by {
                if k != t as int && in_block(wi, y0 as int, k) && block_index(wi, y0 as int, k) == i {
                    law_xy_idx_round_trip(wi, 0, 0, k);
                    law_xy_idx_round_trip(VILLAGE_WIDTH as int, k % wi, k / wi - y0, 0);
                    assert(k % wi == pos.x);
                    assert(k / wi == y0 + pos.y);
                    assert(k == t);
                }
            }
        }
        i += 1;
    }
    proof {
        assert forall|k: int| 0 <= k < world.tiles@.len() implies #[trigger] world.tiles@[k] == if in_block(wi, y0 as int, k) {
            village.tiles@[block_index(wi, y0 as int, k)]
        } else {
            m0.tiles@[k]
        } by {
            if in_block(wi, y0 as int, k) {
                law_xy_idx_round_trip(wi, 0, 0, k);
                lemma_xy_idx_bound(VILLAGE_WIDTH as int, VILLAGE_HEIGHT as int, k % wi, k / wi - y0);
            }
        }
    }
}

/// The terrain of cell `(x, y)` of the world after villages were laid down
/// in the first `rows` village rows of the first village column, over grass
/// inside the border (and `old` on it).
pub open spec fn world_tile(w: int, h: int, rows: int, x: int, y: int, old: TileType) -> TileType {
    if x < VILLAGE_WIDTH && 0 <= y < rows * VILLAGE_HEIGHT {
        village_tile(VILLAGE_WIDTH as int, VILLAGE_HEIGHT as int, x, y % (VILLAGE_HEIGHT as int), TileType::Wall)
    } else if inside_border(w, h, x, y) {
        TileType::Grass
    } else {
        old
    }
}

/// A world of villages on grass.
pub struct VillageWorldBuilder {
    pub map: TileMap,
    pub starting_position: Position,
    /// Snapshots of the terrain while the world is built.
    pub history: Vec<Vec<TileType>>,
}

impl VillageWorldBuilder {
    /// A builder for a world of `size` cells, all water, starting at `(0, 0)`.
    pub fn new(size: (usize, usize)) -> (b: VillageWorldBuilder)
        requires
            size.0 * size.1 <= usize::MAX,
        ensures
            b.map.size == size,
            b.map.tiles@.len() == size.0 * size.1,
            forall|i: int| 0 <= i < b.map.tiles@.len() ==> #[trigger] b.map.tiles@[i] == TileType::Water,
            b.starting_position.ps@ == seq![Point { x: 0, y: 0 }],
            b.history@.len() == 0,
    {
        VillageWorldBuilder {
            map: TileMap::new(size),
            starting_position: Position { ps: vec![Point::new(0, 0)] },
            history: Vec::new(),
        }
    }

    /// Grass inside the border, then villages (`VillageBuilder` maps of
    /// `VILLAGE_WIDTH` by `VILLAGE_HEIGHT`) copied down the first village
    /// column from the top, as many as fit whole (the row counter is not
    /// reset between columns, so later columns get none); the start is the
    /// middle of the world. A snapshot of the terrain is recorded after the
    /// grass, after each village and at the end.
    pub fn build(&mut self)
        requires
            old(self).map.tiles_fit(),
            VILLAGE_WIDTH <= old(self).map.size.0 <= i32::MAX,
            VILLAGE_HEIGHT <= old(self).map.size.1 <= i32::MAX,
        ensures
            final(self).map.tiles_fit(),
            final(self).map.size == old(self).map.size,
            final(self).map.blocked@ == old(self).map.blocked@,
            final(self).map.fire_turns@ == old(self).map.fire_turns@,
            final(self).map.tile_content@ == old(self).map.tile_content@,
            forall|k: int| 0 <= k < final(self).map.tiles@.len() ==> #[trigger] final(self).map.tiles@[k] == world_tile(
                old(self).map.size.0 as int, old(self).map.size.1 as int,
                old(self).map.size.1 as int / VILLAGE_HEIGHT as int,
                k % (old(self).map.size.0 as int), k / (old(self).map.size.0 as int), old(self).map.tiles@[k]),
            final(self).starting_position.ps@ == seq![Point { x: (old(self).map.size.0 / 2) as i32, y: (old(self).map.size.1 / 2) as i32 }],
            tile_history_grew(old(self).history@, final(self).history@,
                2 + old(self).map.size.1 as int / VILLAGE_HEIGHT as int),
            final(self).history@.last()@ == final(self).map.tiles@,
    {
        let w = self.map.size.0;
        let h = self.map.size.1;
        let ghost wi = w as int;
        let ghost hi = h as int;
        let ghost m0 = self.map;
        let ghost h0 = self.history@;
        fill_inside(&mut self.map, false);
        take_tile_snapshot(&mut self.history, &self.map.tiles);
        let mut x: usize = 0;
        let mut y: usize = 0;
        while x <= w - VILLAGE_WIDTH
            invariant
                self.map.tiles_fit(),
                self.map.size == m0.size,
                self.map.blocked@ == m0.blocked@,
                self.map.fire_turns@ == m0.fire_turns@,
                self.map.tile_content@ == m0.tile_content@,
                w == m0.size.0,
                h == m0.size.1,
                wi == w,
                hi == h,
                VILLAGE_WIDTH <= w <= i32::MAX,
                VILLAGE_HEIGHT <= h <= i32::MAX,
                x % VILLAGE_WIDTH == 0,
                x <= w,
                y % VILLAGE_HEIGHT == 0,
                y <= h,
                x > 0 ==> y + VILLAGE_HEIGHT > h,
                forall|k: int| 0 <= k < self.map.tiles@.len() ==> #[trigger] self.map.tiles@[k] == world_tile(
                    wi, hi, y as int / VILLAGE_HEIGHT as int, k % wi, k / wi, m0.tiles@[k]),
                tile_history_grew(h0, self.history@, 1 + y as int / VILLAGE_HEIGHT as int),
            decreases w - x,
        {
            while y + VILLAGE_HEIGHT <= h
                invariant
                    self.map.tiles_fit(),
                    self.map.size == m0.size,
                    self.map.blocked@ == m0.blocked@,
                    self.map.fire_turns@ == m0.fire_turns@,
                    self.map.tile_content@ == m0.tile_content@,
                    w == m0.size.0,
                    h == m0.size.1,
                    wi == w,
                    hi == h,
                    VILLAGE_WIDTH <= w <= i32::MAX,
                    VILLAGE_HEIGHT <= h <= i32::MAX,
                    x % VILLAGE_WIDTH == 0,
                    x + VILLAGE_WIDTH <= w,
                    y % VILLAGE_HEIGHT == 0,
                    y <= h,
                    x > 0 ==> y + VILLAGE_HEIGHT > h,
                    forall|k: int| 0 <= k < self.map.tiles@.len() ==> #[trigger] self.map.tiles@[k] == world_tile(
                        wi, hi, y as int / VILLAGE_HEIGHT as int, k % wi, k / wi, m0.tiles@[k]),
                    tile_history_grew(h0, self.history@, 1 + y as int / VILLAGE_HEIGHT as int),
                decreases h - y,
            {
                let mut village = VillageBuilder::new((VILLAGE_WIDTH, VILLAGE_HEIGHT));
                village.build();
                let ghost before = self.map.tiles@;
                stamp(&mut self.map, &village.map, y);
                proof {
                    assert(x == 0);
                    assert forall|k: int| 0 <= k < self.map.tiles@.len() implies #[trigger] self.map.tiles@[k] == world_tile(
                        wi, hi, (y + VILLAGE_HEIGHT) as int / VILLAGE_HEIGHT as int, k % wi, k / wi, m0.tiles@[k]) by {
                        law_xy_idx_round_trip(wi, 0, 0, k);
                        if in_block(wi, y as int, k) {
                            let vx = k % wi;
                            let vy = k / wi - y;
                            let j = block_index(wi, y as int, k);
                            lemma_xy_idx_bound(VILLAGE_WIDTH as int, VILLAGE_HEIGHT as int, vx, vy);
                            law_xy_idx_round_trip(VILLAGE_WIDTH as int, vx, vy, 0);
                            assert(j % (VILLAGE_WIDTH as int) == vx);
                            assert(j / (VILLAGE_WIDTH as int) == vy);
                            assert((k / wi) % (VILLAGE_HEIGHT as int) == vy) by {
                                vstd::arithmetic::div_mod::lemma_fundamental_div_mod_converse(k / wi, VILLAGE_HEIGHT as int, y as int / VILLAGE_HEIGHT as int, vy);
                            }
                        }
                    }
                }
                let ghost hb = self.history@;
                take_tile_snapshot(&mut self.history, &self.map.tiles);
                proof {
                    assert forall|q: int| 0 <= q < h0.len() implies #[trigger] self.history@[q] == h0[q] by {
                        assert(self.history@[q] == hb[q]);
                    }
                    assert((y + VILLAGE_HEIGHT) as int / VILLAGE_HEIGHT as int == y as int / VILLAGE_HEIGHT as int + 1) by {
                        vstd::arithmetic::div_mod::lemma_fundamental_div_mod(y as int, VILLAGE_HEIGHT as int);
                        vstd::arithmetic::div_mod::lemma_fundamental_div_mod_converse(
                            (y + VILLAGE_HEIGHT) as int, VILLAGE_HEIGHT as int, y as int / VILLAGE_HEIGHT as int + 1, 0);
                    }
                }
                y += VILLAGE_HEIGHT;
            }
            x += VILLAGE_WIDTH;
        }
        let ghost hb = self.history@;
        take_tile_snapshot(&mut self.history, &self.map.tiles);
        proof {
            assert forall|q: int| 0 <= q < h0.len() implies #[trigger] self.history@[q] == h0[q] by {
                assert(self.history@[q] == hb[q]);
            }
        }
        self.starting_position = Position { ps: vec![Point::new((w / 2) as i32, (h / 2) as i32)] };
    }
}

} // verus!
